use rollback_core::wire::{decode_packet, encode_packet, Packet};

#[test]
fn encode_layout_without_checksum() {
    let p = Packet { frame: 0x01020304, input: 0x10, checksum: None };
    assert_eq!(encode_packet(&p), vec![4, 3, 2, 1, 0x10, 0]);
}

#[test]
fn encode_layout_with_checksum() {
    let p = Packet { frame: 7, input: 31, checksum: Some(0x0102030405060708) };
    assert_eq!(
        encode_packet(&p),
        vec![7, 0, 0, 0, 31, 1, 8, 7, 6, 5, 4, 3, 2, 1]
    );
}

#[test]
fn packet_round_trips() {
    let cases = [
        Packet { frame: 0, input: 0, checksum: None },
        Packet { frame: u32::MAX, input: 255, checksum: None },
        Packet { frame: 123456, input: 16, checksum: Some(0) },
        Packet { frame: 60, input: 4, checksum: Some(u64::MAX) },
        Packet { frame: 1, input: 2, checksum: Some(0xdeadbeefcafef00d) },
    ];
    for p in cases {
        assert_eq!(decode_packet(&encode_packet(&p)), Some(p));
    }
}

#[test]
fn decode_rejects_malformed_bytes() {
    assert_eq!(decode_packet(&vec![]), None);
    assert_eq!(decode_packet(&vec![1, 2, 3, 4, 5]), None);
    // bad tag
    assert_eq!(decode_packet(&vec![1, 2, 3, 4, 5, 2]), None);
    // checksum tag without the checksum bytes
    assert_eq!(decode_packet(&vec![1, 2, 3, 4, 5, 1]), None);
    // trailing byte
    assert_eq!(decode_packet(&vec![1, 2, 3, 4, 5, 0, 9]), None);
    // tag zero with checksum-length body
    assert_eq!(
        decode_packet(&vec![1, 2, 3, 4, 5, 0, 1, 2, 3, 4, 5, 6, 7, 8]),
        None
    );
}
