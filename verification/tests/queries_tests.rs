use lattica::queries::{KadOutcome, PendingQuery, QueryReply, QueryTable};

#[test]
fn record_lookup_waits_for_expected_records() {
    let mut t: QueryTable<u32> = QueryTable::new();
    t.register(1, PendingQuery::GetRecord { expected: 2, records: vec![] });
    assert!(t.on_kad_outcome::<()>(1, KadOutcome::GetRecordFound(10)).is_none());
    assert!(t.is_pending(1));
    match t.on_kad_outcome::<()>(1, KadOutcome::GetRecordFound(20)) {
        Some(QueryReply::Records(Ok(v))) => assert_eq!(v, vec![10, 20]),
        other => panic!("unexpected {:?}", other),
    }
    assert!(!t.is_pending(1));
    assert!(t.on_kad_outcome::<()>(1, KadOutcome::GetRecordFound(30)).is_none());
}

#[test]
fn record_lookup_failure_is_reported() {
    let mut t: QueryTable<u32> = QueryTable::new();
    t.register(2, PendingQuery::GetRecord { expected: 1, records: vec![] });
    match t.on_kad_outcome::<()>(2, KadOutcome::GetRecordFailed("NotFound".to_string())) {
        Some(QueryReply::Records(Err(e))) => assert_eq!(e, "get record error: NotFound"),
        other => panic!("unexpected {:?}", other),
    }
    assert!(!t.is_pending(2));
}

#[test]
fn publication_failures_for_want_of_peers_count_as_done() {
    let mut t: QueryTable<u32> = QueryTable::new();
    t.register(3, PendingQuery::PutRecord);
    assert!(matches!(t.on_kad_outcome::<()>(3, KadOutcome::PutRecordFailed("QuorumFailed { key: .. }".into())), Some(QueryReply::Put(Ok(())))));
    t.register(4, PendingQuery::PutRecord);
    assert!(matches!(t.on_kad_outcome::<()>(4, KadOutcome::PutRecordFailed("NoKnownPeers".into())), Some(QueryReply::Put(Ok(())))));
    t.register(5, PendingQuery::PutRecord);
    match t.on_kad_outcome::<()>(5, KadOutcome::PutRecordFailed("Timeout".into())) {
        Some(QueryReply::Put(Err(e))) => assert_eq!(e, "put record error: Timeout"),
        other => panic!("unexpected {:?}", other),
    }
    t.register(6, PendingQuery::PutRecord);
    assert!(matches!(t.on_kad_outcome::<()>(6, KadOutcome::PutRecordOk), Some(QueryReply::Put(Ok(())))));
}

#[test]
fn providing_and_provider_lookups() {
    let mut t: QueryTable<u32> = QueryTable::new();
    t.register(7, PendingQuery::StartProviding);
    assert!(matches!(t.on_kad_outcome::<()>(7, KadOutcome::StartProvidingOk), Some(QueryReply::Provide(Ok(())))));
    t.register(8, PendingQuery::StartProviding);
    match t.on_kad_outcome::<()>(8, KadOutcome::StartProvidingFailed("x".into())) {
        Some(QueryReply::Provide(Err(e))) => assert_eq!(e, "add provider error: x"),
        other => panic!("unexpected {:?}", other),
    }
    t.register(9, PendingQuery::GetProviders);
    match t.on_kad_outcome::<char>(9, KadOutcome::ProvidersFound(vec!['a', 'b'])) {
        Some(QueryReply::Providers(Ok(v))) => assert_eq!(v, vec!['a', 'b']),
        other => panic!("unexpected {:?}", other),
    }
    t.register(10, PendingQuery::GetProviders);
    match t.on_kad_outcome::<char>(10, KadOutcome::ProvidersFailed("y".into())) {
        Some(QueryReply::Providers(Err(e))) => assert_eq!(e, "get providers error: y"),
        other => panic!("unexpected {:?}", other),
    }
}

#[test]
fn mismatched_or_unknown_queries_get_no_answer() {
    let mut t: QueryTable<u32> = QueryTable::new();
    t.register(11, PendingQuery::PutRecord);
    assert!(t.on_kad_outcome::<()>(11, KadOutcome::StartProvidingOk).is_none());
    assert!(!t.is_pending(11));
    assert!(t.on_kad_outcome::<()>(12, KadOutcome::PutRecordOk).is_none());
    t.register(13, PendingQuery::PutRecord);
    assert!(t.on_kad_outcome::<()>(13, KadOutcome::Other).is_none());
    assert!(t.is_pending(13));
}

#[test]
fn block_queries() {
    let mut t: QueryTable<u32> = QueryTable::new();
    t.register(20, PendingQuery::Get);
    match t.on_block_outcome::<()>(20, Ok(vec![1, 2, 3])) {
        Some(QueryReply::Block(Ok(b))) => assert_eq!(b, vec![1, 2, 3]),
        other => panic!("unexpected {:?}", other),
    }
    t.register(21, PendingQuery::Get);
    assert!(matches!(t.on_block_outcome::<()>(21, Err("gone".into())), Some(QueryReply::Block(Err(_)))));
    assert!(t.on_block_outcome::<()>(22, Ok(vec![])).is_none());
}
