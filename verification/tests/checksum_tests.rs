use rollback_core::checksum::{
    checksum_transform, finite_bits, hash_words, ChecksumError, DesyncDetector, DesyncEvent,
    TransformBits, HASH_SEED,
};

#[test]
fn hash_of_nothing_is_the_seed() {
    assert_eq!(hash_words(&vec![]), HASH_SEED);
    assert_eq!(HASH_SEED, 0xcbf29ce484222325);
}

#[test]
fn hash_known_values() {
    assert_eq!(hash_words(&vec![1, 2]), 0x082f2407b4e8902a);
    assert_eq!(hash_words(&vec![2, 1]), 0x08395307b4f1348c);
}

#[test]
fn hash_depends_on_order() {
    assert_ne!(hash_words(&vec![1, 2]), hash_words(&vec![2, 1]));
}

#[test]
fn hash_is_deterministic() {
    let ws = vec![7u64, 99, 1 << 40, 0];
    assert_eq!(hash_words(&ws), hash_words(&ws.clone()));
}

#[test]
fn finite_bits_classifies_float_patterns() {
    assert!(finite_bits(0x3f800000)); // 1.0
    assert!(finite_bits(0)); // 0.0
    assert!(finite_bits(0x80000000)); // -0.0
    assert!(finite_bits(0x7f7fffff)); // largest finite
    assert!(!finite_bits(0x7f800000)); // +infinity
    assert!(!finite_bits(0xff800000)); // -infinity
    assert!(!finite_bits(0x7fc00000)); // NaN
}

#[test]
fn transform_checksum_known_value() {
    let t = TransformBits {
        translation: (0x3f800000, 0x40000000, 0x40400000),
        rotation: (0, 0, 0, 0x3f800000),
    };
    assert_eq!(checksum_transform(&t), Ok(0x4ed8e6470bc76aa7));
}

#[test]
fn transform_checksum_rejects_nan() {
    let t = TransformBits {
        translation: (0x7fc00000, 0, 0),
        rotation: (0, 0, 0, 0x3f800000),
    };
    assert_eq!(checksum_transform(&t), Err(ChecksumError::NonFinite));
}

#[test]
fn transform_checksum_rejects_infinite_rotation() {
    let t = TransformBits {
        translation: (0, 0, 0),
        rotation: (0, 0, 0xff800000, 0x3f800000),
    };
    assert_eq!(checksum_transform(&t), Err(ChecksumError::NonFinite));
}

#[test]
fn transform_checksum_skips_nothing_relevant() {
    // Two transforms differing in one gameplay field disagree.
    let a = TransformBits { translation: (1, 0, 0), rotation: (0, 0, 0, 0) };
    let b = TransformBits { translation: (2, 0, 0), rotation: (0, 0, 0, 0) };
    assert_ne!(checksum_transform(&a).unwrap(), checksum_transform(&b).unwrap());
}

#[test]
fn detector_counts_disagreements() {
    let mut d = DesyncDetector::new(1);
    d.record(10);
    d.record(20);
    assert_eq!(d.frames_recorded(), 2);
    assert_eq!(d.local_checksum(0), Some(10));
    assert_eq!(d.local_checksum(5), None);
    assert_eq!(d.check_remote(0, 10), None);
    assert_eq!(d.desync_count(), 0);
    let ev = d.check_remote(1, 99);
    assert_eq!(ev, Some(DesyncEvent { frame: 1, local: 20, remote: 99 }));
    assert_eq!(d.desync_count(), 1);
}

#[test]
fn detector_interval_gates_exchanges() {
    let d = DesyncDetector::new(3);
    assert!(d.should_exchange(0));
    assert!(!d.should_exchange(1));
    assert!(!d.should_exchange(2));
    assert!(d.should_exchange(3));
    assert!(d.should_exchange(6));
}

#[test]
fn detector_rewrite_replaces_a_frame() {
    let mut d = DesyncDetector::new(1);
    d.record(10);
    d.rewrite(0, 11);
    assert_eq!(d.local_checksum(0), Some(11));
}
