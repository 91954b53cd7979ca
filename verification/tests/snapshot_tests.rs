use rollback_core::snapshot::{SnapshotError, SnapshotStore};

#[test]
fn empty_store_restores_nothing() {
    let s: SnapshotStore<u64> = SnapshotStore::new(3);
    assert_eq!(s.capacity(), 3);
    assert_eq!(s.oldest_frame(), None);
    assert_eq!(s.restore(0), Err(SnapshotError::Evicted));
}

#[test]
fn store_keeps_the_most_recent_frames() {
    let mut s: SnapshotStore<u64> = SnapshotStore::new(3);
    s.capture(0, 100);
    s.capture(1, 101);
    s.capture(2, 102);
    assert_eq!(s.oldest_frame(), Some(0));
    assert_eq!(s.restore(0), Ok(100));
    assert_eq!(s.restore(2), Ok(102));
    s.capture(3, 103);
    assert_eq!(s.oldest_frame(), Some(1));
    assert_eq!(s.restore(0), Err(SnapshotError::Evicted));
    assert_eq!(s.restore(1), Ok(101));
    assert_eq!(s.restore(3), Ok(103));
    s.capture(4, 104);
    s.capture(5, 105);
    assert_eq!(s.oldest_frame(), Some(3));
    assert_eq!(s.restore(2), Err(SnapshotError::Evicted));
    assert_eq!(s.restore(5), Ok(105));
}

#[test]
fn store_overwrites_a_held_frame() {
    let mut s: SnapshotStore<u64> = SnapshotStore::new(4);
    s.capture(0, 100);
    s.capture(1, 101);
    s.capture(2, 102);
    s.capture(1, 201);
    assert_eq!(s.restore(1), Ok(201));
    assert_eq!(s.restore(0), Ok(100));
    assert_eq!(s.restore(2), Ok(102));
    assert_eq!(s.oldest_frame(), Some(0));
}

#[test]
fn store_of_capacity_one_holds_only_the_newest() {
    let mut s: SnapshotStore<u64> = SnapshotStore::new(1);
    s.capture(0, 100);
    s.capture(1, 101);
    assert_eq!(s.restore(0), Err(SnapshotError::Evicted));
    assert_eq!(s.restore(1), Ok(101));
    assert_eq!(s.oldest_frame(), Some(1));
}
