//! The per-tick packet exchanged between peers: a frame number, that
//! frame's input bitfield, and — at the checksum interval — the sender's
//! checksum of an earlier confirmed frame. Loss and duplication of packets
//! are tolerated by the session, since inputs are idempotent by frame; the
//! codec here only has to be exact.

use vstd::prelude::*;

verus! {

/// One packet on the wire.
#[derive(Clone, Copy, PartialEq, Eq, Structural, Debug)]
pub struct Packet {
    /// The frame the input belongs to.
    pub frame: u32,
    /// The sender's input for that frame.
    pub input: u8,
    /// The sender's checksum of an earlier confirmed frame, when one is
    /// due for exchange.
    pub checksum: Option<u64>,
}

/// The value of four little-endian bytes.
pub open spec fn spec_le32(b: Seq<u8>) -> u32 {
    (b[0] + 256 * b[1] + 65536 * b[2] + 16777216 * b[3]) as u32
}

/// The value of eight little-endian bytes.
pub open spec fn spec_le64(b: Seq<u8>) -> u64 {
    (b[0] + 256 * b[1] + 65536 * b[2] + 16777216 * b[3] + 4294967296 * b[4] + 1099511627776 * b[5]
        + 281474976710656 * b[6] + 72057594037927936 * b[7]) as u64
}

/// The encoding of a packet: the frame in four little-endian bytes, the
/// input byte, a tag byte for the checksum, and — under tag one — the
/// checksum in eight little-endian bytes.
pub open spec fn spec_packet_bytes(p: Packet) -> Seq<u8> {
    let head = seq![
        (p.frame % 256) as u8,
        ((p.frame / 256) % 256) as u8,
        ((p.frame / 65536) % 256) as u8,
        ((p.frame / 16777216) % 256) as u8,
        p.input,
    ];
    match p.checksum {
        None => head + seq![0u8],
        Some(c) => head + seq![1u8] + seq![
            (c % 256) as u8,
            ((c / 256) % 256) as u8,
            ((c / 65536) % 256) as u8,
            ((c / 16777216) % 256) as u8,
            ((c / 4294967296) % 256) as u8,
            ((c / 1099511627776) % 256) as u8,
            ((c / 281474976710656) % 256) as u8,
            ((c / 72057594037927936) % 256) as u8,
        ],
    }
}

/// What a byte string decodes to: a packet exactly when it is six bytes
/// under tag zero or fourteen bytes under tag one, nothing otherwise.
pub open spec fn spec_parse_packet(b: Seq<u8>) -> Option<Packet> {
    if b.len() == 6 && b[5] == 0 {
        Some(Packet { frame: spec_le32(b.subrange(0, 4)), input: b[4], checksum: None })
    } else if b.len() == 14 && b[5] == 1 {
        Some(
            Packet {
                frame: spec_le32(b.subrange(0, 4)),
                input: b[4],
                checksum: Some(spec_le64(b.subrange(6, 14))),
            },
        )
    } else {
        None
    }
}

/// Encodes a packet for the wire.
pub fn encode_packet(p: &Packet) -> (b: Vec<u8>)
    ensures
        b@ == spec_packet_bytes(*p),
{
    let mut b: Vec<u8> = Vec::new();
    b.push((p.frame % 256) as u8);
    b.push(((p.frame / 256) % 256) as u8);
    b.push(((p.frame / 65536) % 256) as u8);
    b.push(((p.frame / 16777216) % 256) as u8);
    b.push(p.input);
    match p.checksum {
        None => {
            b.push(0);
        },
        Some(c) => {
            b.push(1);
            b.push((c % 256) as u8);
            b.push(((c / 256) % 256) as u8);
            b.push(((c / 65536) % 256) as u8);
            b.push(((c / 16777216) % 256) as u8);
            b.push(((c / 4294967296) % 256) as u8);
            b.push(((c / 1099511627776) % 256) as u8);
            b.push(((c / 281474976710656) % 256) as u8);
            b.push(((c / 72057594037927936) % 256) as u8);
        },
    }
    assert(b@ =~= spec_packet_bytes(*p));
    b
}

/// Decodes a received byte string, or `None` exactly when it is not a
/// well-formed packet.
pub fn decode_packet(b: &Vec<u8>) -> (r: Option<Packet>)
    ensures
        r == spec_parse_packet(b@),
{
    if b.len() == 6 && b[5] == 0 {
        let frame = b[0] as u32 + 256 * (b[1] as u32) + 65536 * (b[2] as u32) + 16777216 * (
        b[3] as u32);
        proof {
            assert(b@.subrange(0, 4)[0] == b@[0]);
            assert(b@.subrange(0, 4)[1] == b@[1]);
            assert(b@.subrange(0, 4)[2] == b@[2]);
            assert(b@.subrange(0, 4)[3] == b@[3]);
        }
        Some(Packet { frame, input: b[4], checksum: None })
    } else if b.len() == 14 && b[5] == 1 {
        let frame = b[0] as u32 + 256 * (b[1] as u32) + 65536 * (b[2] as u32) + 16777216 * (
        b[3] as u32);
        let sum = b[6] as u64 + 256 * (b[7] as u64) + 65536 * (b[8] as u64) + 16777216 * (
        b[9] as u64) + 4294967296 * (b[10] as u64) + 1099511627776 * (b[11] as u64)
            + 281474976710656 * (b[12] as u64) + 72057594037927936 * (b[13] as u64);
        proof {
            assert(b@.subrange(0, 4)[0] == b@[0]);
            assert(b@.subrange(0, 4)[1] == b@[1]);
            assert(b@.subrange(0, 4)[2] == b@[2]);
            assert(b@.subrange(0, 4)[3] == b@[3]);
            assert forall|i: int| 0 <= i < 8 implies b@.subrange(6, 14)[i] == b@[6 + i] by {}
        }
        Some(Packet { frame, input: b[4], checksum: Some(sum) })
    } else {
        None
    }
}

proof fn lemma_le32_reassemble(f: u32)
    ensures
        f % 256 + 256 * ((f / 256) % 256) + 65536 * ((f / 65536) % 256) + 16777216 * ((f
            / 16777216) % 256) == f,
{
    vstd::arithmetic::div_mod::lemma_div_denominator(f as int, 256, 256);
    vstd::arithmetic::div_mod::lemma_div_denominator(f as int, 65536, 256);
}

proof fn lemma_le64_reassemble(c: u64)
    ensures
        c % 256 + 256 * ((c / 256) % 256) + 65536 * ((c / 65536) % 256) + 16777216 * ((c
            / 16777216) % 256) + 4294967296 * ((c / 4294967296) % 256) + 1099511627776 * ((c
            / 1099511627776) % 256) + 281474976710656 * ((c / 281474976710656) % 256)
            + 72057594037927936 * ((c / 72057594037927936) % 256) == c,
{
    vstd::arithmetic::div_mod::lemma_div_denominator(c as int, 256, 256);
    vstd::arithmetic::div_mod::lemma_div_denominator(c as int, 65536, 256);
    vstd::arithmetic::div_mod::lemma_div_denominator(c as int, 16777216, 256);
    vstd::arithmetic::div_mod::lemma_div_denominator(c as int, 4294967296, 256);
    vstd::arithmetic::div_mod::lemma_div_denominator(c as int, 1099511627776, 256);
    vstd::arithmetic::div_mod::lemma_div_denominator(c as int, 281474976710656, 256);
}

/// Law (codec round trip): decoding an encoded packet yields the packet
/// back, for every frame, input and checksum.
pub proof fn lemma_packet_round_trip(p: Packet)
    ensures
        spec_parse_packet(spec_packet_bytes(p)) == Some(p),
{
    let b = spec_packet_bytes(p);
    match p.checksum {
        None => {
            assert(b.len() == 6 && b[5] == 0);
            assert(b.subrange(0, 4)[0] == b[0]);
            assert(b.subrange(0, 4)[1] == b[1]);
            assert(b.subrange(0, 4)[2] == b[2]);
            assert(b.subrange(0, 4)[3] == b[3]);
            lemma_le32_reassemble(p.frame);
            assert(spec_le32(b.subrange(0, 4)) == p.frame);
        },
        Some(c) => {
            assert(b.len() == 14 && b[5] == 1);
            assert(b.subrange(0, 4)[0] == b[0]);
            assert(b.subrange(0, 4)[1] == b[1]);
            assert(b.subrange(0, 4)[2] == b[2]);
            assert(b.subrange(0, 4)[3] == b[3]);
            lemma_le32_reassemble(p.frame);
            assert(spec_le32(b.subrange(0, 4)) == p.frame);
            assert forall|i: int| 0 <= i < 8 implies b.subrange(6, 14)[i] == b[6 + i] by {}
            lemma_le64_reassemble(c);
            assert(spec_le64(b.subrange(6, 14)) == c);
        },
    }
}

} // verus!
