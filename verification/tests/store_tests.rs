use lattica::store::{
    after_disk_lookup, after_memory_lookup, expired_memory_keys, expired_stored_keys, is_due, is_expired,
    live_indices, reload_remaining, stored_from_record, LookupAction, StoredRecord,
};

#[test]
fn stored_expiry_is_wall_clock_nanos() {
    let r = stored_from_record(vec![1], vec![2], vec![3], Some(5_000_000_000), 1_000_000_000_000_000_000);
    assert_eq!(r.key, vec![1]);
    assert_eq!(r.value, vec![2]);
    assert_eq!(r.publisher, Some(vec![3]));
    assert_eq!(r.expires, Some(1_000_000_005_000_000_000));
    let forever = stored_from_record(vec![1], vec![2], vec![3], None, 7);
    assert_eq!(forever.expires, None);
}

#[test]
fn reloaded_expiry_reads_seconds() {
    assert_eq!(reload_remaining(10, 4_000_000_000), 6_000_000_000);
    assert_eq!(reload_remaining(3, 4_000_000_000), 0);
    assert_eq!(reload_remaining(0, 0), 0);
}

#[test]
fn expiry_comparisons() {
    assert!(!is_expired(None, 10));
    assert!(!is_expired(Some(10), 10));
    assert!(is_expired(Some(9), 10));
    assert!(is_due(Some(10), 10));
    assert!(!is_due(Some(11), 10));
    assert!(!is_due(None, 10));
}

#[test]
fn sweep_selects_due_keys() {
    let mem = vec![(vec![1u8], Some(5u128)), (vec![2u8], None), (vec![3u8], Some(10)), (vec![4u8], Some(11))];
    assert_eq!(expired_memory_keys(&mem, 10), vec![vec![1u8], vec![3u8]]);
    let rec = |e: Option<u64>| Some(StoredRecord { key: vec![], value: vec![], publisher: None, expires: e });
    let disk = vec![(vec![1u8], rec(Some(5))), (vec![2u8], None), (vec![3u8], rec(None)), (vec![4u8], rec(Some(10)))];
    assert_eq!(expired_stored_keys(&disk, 10), vec![vec![1u8], vec![4u8]]);
}

#[test]
fn listings_keep_live_records() {
    let e = vec![Some(5u128), None, Some(10), Some(11)];
    assert_eq!(live_indices(&e, 10, true), vec![1, 2, 3]);
    assert_eq!(live_indices(&e, 10, false), vec![1, 3]);
}

#[test]
fn lookup_steps() {
    assert_eq!(after_memory_lookup(Some(None), 5), LookupAction::AnswerFromMemory);
    assert_eq!(after_memory_lookup(Some(Some(4)), 5), LookupAction::DropFromMemory);
    assert_eq!(after_memory_lookup(None, 5), LookupAction::ReadDisk);
    assert_eq!(after_disk_lookup(Some(Some(6)), 5), LookupAction::CacheAndAnswer);
    assert_eq!(after_disk_lookup(Some(Some(4)), 5), LookupAction::DropFromDisk);
    assert_eq!(after_disk_lookup(None, 5), LookupAction::Miss);
}
