//! Bookkeeping of the DHT and block-exchange queries a node has started:
//! which query waits for what, and which answer each finished query gets.
//! A record lookup may wait for several records; a record publication that
//! failed only for want of peers counts as done.

use fnv::FnvHashMap;
use vstd::prelude::*;
use crate::bytes::{contains_str, contains_text};

verus! {

/// The FNV hasher of the `fnv` crate.
#[verifier::external_type_specification]
#[verifier::external_body]
pub struct ExFnvHasher(fnv::FnvHasher);

/// The hasher builder of std that builds hashers by `Default`.
#[verifier::external_type_specification]
#[verifier::external_body]
#[verifier::reject_recursive_types(H)]
pub struct ExBuildHasherDefault<H>(std::hash::BuildHasherDefault<H>);

/// Calls `HashMap::insert` on a map hashed with FNV. The contract claims
/// the usual map behaviour, which holds because FNV hashing is
/// deterministic.
#[verifier::external_body]
fn fnv_insert<V>(m: &mut FnvHashMap<u64, V>, k: u64, v: V) -> (r: Option<V>)
    ensures
        final(m)@ == old(m)@.insert(k, v),
        r matches Some(x) ==> old(m)@.contains_key(k) && x == old(m)@[k],
        r is None ==> !old(m)@.contains_key(k),
{
    m.insert(k, v)
}

/// Calls `HashMap::remove` on a map hashed with FNV. The contract claims
/// the usual map behaviour, which holds because FNV hashing is
/// deterministic.
#[verifier::external_body]
fn fnv_remove<V>(m: &mut FnvHashMap<u64, V>, k: u64) -> (r: Option<V>)
    ensures
        final(m)@ == old(m)@.remove(k),
        r matches Some(x) ==> old(m)@.contains_key(k) && x == old(m)@[k],
        r is None ==> !old(m)@.contains_key(k),
{
    m.remove(&k)
}

/// Calls `HashMap::contains_key` on a map hashed with FNV. The contract
/// claims the usual map behaviour, which holds because FNV hashing is
/// deterministic.
#[verifier::external_body]
fn fnv_contains<V>(m: &FnvHashMap<u64, V>, k: u64) -> (r: bool)
    ensures
        r == m@.contains_key(k),
{
    m.contains_key(&k)
}

/// What a started query waits for.
#[derive(Debug)]
pub enum PendingQuery<Rec> {
    /// A record lookup that is answered once `expected` records arrived.
    GetRecord { expected: usize, records: Vec<Rec> },
    PutRecord,
    StartProviding,
    GetProviders,
    /// A block fetched over the block-exchange protocol.
    Get,
}

/// The value of a pending query.
pub enum PendingView<Rec> {
    GetRecord { expected: usize, records: Seq<Rec> },
    PutRecord,
    StartProviding,
    GetProviders,
    Get,
}

impl<Rec> View for PendingQuery<Rec> {
    type V = PendingView<Rec>;

    open spec fn view(&self) -> PendingView<Rec> {
        match self {
            PendingQuery::GetRecord { expected, records } => PendingView::GetRecord { expected: *expected, records: records@ },
            PendingQuery::PutRecord => PendingView::PutRecord,
            PendingQuery::StartProviding => PendingView::StartProviding,
            PendingQuery::GetProviders => PendingView::GetProviders,
            PendingQuery::Get => PendingView::Get,
        }
    }
}

/// How a DHT query progressed. Failures carry the error as text.
#[derive(Debug)]
pub enum KadOutcome<Rec, Prov> {
    GetRecordFound(Rec),
    GetRecordFailed(String),
    PutRecordOk,
    PutRecordFailed(String),
    StartProvidingOk,
    StartProvidingFailed(String),
    ProvidersFound(Vec<Prov>),
    ProvidersFailed(String),
    /// Progress that no pending query waits for.
    Other,
}

/// The value of a DHT outcome.
pub enum OutcomeView<Rec, Prov> {
    GetRecordFound(Rec),
    GetRecordFailed(Seq<char>),
    PutRecordOk,
    PutRecordFailed(Seq<char>),
    StartProvidingOk,
    StartProvidingFailed(Seq<char>),
    ProvidersFound(Seq<Prov>),
    ProvidersFailed(Seq<char>),
    Other,
}

impl<Rec, Prov> View for KadOutcome<Rec, Prov> {
    type V = OutcomeView<Rec, Prov>;

    open spec fn view(&self) -> OutcomeView<Rec, Prov> {
        match self {
            KadOutcome::GetRecordFound(r) => OutcomeView::GetRecordFound(*r),
            KadOutcome::GetRecordFailed(e) => OutcomeView::GetRecordFailed(e@),
            KadOutcome::PutRecordOk => OutcomeView::PutRecordOk,
            KadOutcome::PutRecordFailed(e) => OutcomeView::PutRecordFailed(e@),
            KadOutcome::StartProvidingOk => OutcomeView::StartProvidingOk,
            KadOutcome::StartProvidingFailed(e) => OutcomeView::StartProvidingFailed(e@),
            KadOutcome::ProvidersFound(p) => OutcomeView::ProvidersFound(p@),
            KadOutcome::ProvidersFailed(e) => OutcomeView::ProvidersFailed(e@),
            KadOutcome::Other => OutcomeView::Other,
        }
    }
}

/// The answer a finished query gets.
#[derive(Debug)]
pub enum QueryReply<Rec, Prov> {
    Records(Result<Vec<Rec>, String>),
    Put(Result<(), String>),
    Provide(Result<(), String>),
    Providers(Result<Vec<Prov>, String>),
    Block(Result<Vec<u8>, String>),
}

/// The value of an answer.
pub enum ReplyView<Rec, Prov> {
    Records(Result<Seq<Rec>, Seq<char>>),
    Put(Result<(), Seq<char>>),
    Provide(Result<(), Seq<char>>),
    Providers(Result<Seq<Prov>, Seq<char>>),
    Block(Result<Seq<u8>, Seq<char>>),
}

impl<Rec, Prov> View for QueryReply<Rec, Prov> {
    type V = ReplyView<Rec, Prov>;

    open spec fn view(&self) -> ReplyView<Rec, Prov> {
        match self {
            QueryReply::Records(Ok(v)) => ReplyView::Records(Ok(v@)),
            QueryReply::Records(Err(e)) => ReplyView::Records(Err(e@)),
            QueryReply::Put(Ok(())) => ReplyView::Put(Ok(())),
            QueryReply::Put(Err(e)) => ReplyView::Put(Err(e@)),
            QueryReply::Provide(Ok(())) => ReplyView::Provide(Ok(())),
            QueryReply::Provide(Err(e)) => ReplyView::Provide(Err(e@)),
            QueryReply::Providers(Ok(v)) => ReplyView::Providers(Ok(v@)),
            QueryReply::Providers(Err(e)) => ReplyView::Providers(Err(e@)),
            QueryReply::Block(Ok(v)) => ReplyView::Block(Ok(v@)),
            QueryReply::Block(Err(e)) => ReplyView::Block(Err(e@)),
        }
    }
}

/// The value of an optional answer.
pub open spec fn opt_reply_view<Rec, Prov>(r: &Option<QueryReply<Rec, Prov>>) -> Option<ReplyView<Rec, Prov>> {
    match r {
        Some(x) => Some(x@),
        None => None,
    }
}

/// Whether a failed publication only lacked peers or a quorum, which the
/// node accepts as done.
pub open spec fn put_failure_tolerated(text: Seq<char>) -> bool {
    contains_text(text, "QuorumFailed"@) || contains_text(text, "NoKnownPeers"@)
}

/// The pending queries after query `id` made progress `o`, and the answer
/// it gets, if any. The query is dropped whenever its progress is final,
/// also when it waited for something else.
pub open spec fn kad_step<Rec, Prov>(
    m: Map<u64, PendingView<Rec>>,
    id: u64,
    o: OutcomeView<Rec, Prov>,
) -> (Map<u64, PendingView<Rec>>, Option<ReplyView<Rec, Prov>>) {
    let pending = if m.contains_key(id) { Some(m[id]) } else { None };
    match o {
        OutcomeView::GetRecordFound(rec) => match pending {
            Some(PendingView::GetRecord { expected, records }) => {
                let rs = records.push(rec);
                if rs.len() >= expected {
                    (m.remove(id), Some(ReplyView::Records(Ok(rs))))
                } else {
                    (m.insert(id, PendingView::GetRecord { expected, records: rs }), None)
                }
            },
            _ => (m.remove(id), None),
        },
        OutcomeView::GetRecordFailed(e) => (
            m.remove(id),
            if pending matches Some(PendingView::GetRecord { .. }) {
                Some(ReplyView::Records(Err("get record error: "@ + e)))
            } else {
                None
            },
        ),
        OutcomeView::PutRecordOk => (
            m.remove(id),
            if pending matches Some(PendingView::PutRecord) { Some(ReplyView::Put(Ok(()))) } else { None },
        ),
        OutcomeView::PutRecordFailed(e) => (
            m.remove(id),
            if pending matches Some(PendingView::PutRecord) {
                if put_failure_tolerated(e) {
                    Some(ReplyView::Put(Ok(())))
                } else {
                    Some(ReplyView::Put(Err("put record error: "@ + e)))
                }
            } else {
                None
            },
        ),
        OutcomeView::StartProvidingOk => (
            m.remove(id),
            if pending matches Some(PendingView::StartProviding) { Some(ReplyView::Provide(Ok(()))) } else { None },
        ),
        OutcomeView::StartProvidingFailed(e) => (
            m.remove(id),
            if pending matches Some(PendingView::StartProviding) {
                Some(ReplyView::Provide(Err("add provider error: "@ + e)))
            } else {
                None
            },
        ),
        OutcomeView::ProvidersFound(p) => (
            m.remove(id),
            if pending matches Some(PendingView::GetProviders) { Some(ReplyView::Providers(Ok(p))) } else { None },
        ),
        OutcomeView::ProvidersFailed(e) => (
            m.remove(id),
            if pending matches Some(PendingView::GetProviders) {
                Some(ReplyView::Providers(Err("get providers error: "@ + e)))
            } else {
                None
            },
        ),
        OutcomeView::Other => (m, None),
    }
}

/// A query is answered at most once: once it gets an answer it is no
/// longer pending; a record lookup is answered with at least the number of
/// records it waited for; and the progress of one query leaves the others
/// as they were.
pub proof fn lemma_kad_answer_once<Rec, Prov>(m: Map<u64, PendingView<Rec>>, id: u64, o: OutcomeView<Rec, Prov>, other: u64)
    ensures
        kad_step(m, id, o).1 is Some ==> !kad_step(m, id, o).0.contains_key(id),
        kad_step(m, id, o).1 is Some ==> m.contains_key(id),
        kad_step(m, id, o).1 matches Some(ReplyView::Records(Ok(rs))) ==> (m[id] matches PendingView::GetRecord { expected, .. }
            && rs.len() >= expected),
        other != id ==> (kad_step(m, id, o).0.contains_key(other) == m.contains_key(other)),
        other != id && m.contains_key(other) ==> kad_step(m, id, o).0[other] == m[other],
{
}

/// The pending queries, and the answers given one by one, after the
/// records `rs` arrived in turn for query `id`.
pub open spec fn feed_records<Rec, Prov>(
    m: Map<u64, PendingView<Rec>>,
    id: u64,
    rs: Seq<Rec>,
) -> (Map<u64, PendingView<Rec>>, Seq<Option<ReplyView<Rec, Prov>>>)
    decreases rs.len(),
{
    if rs.len() == 0 {
        (m, Seq::empty())
    } else {
        let before = feed_records::<Rec, Prov>(m, id, rs.drop_last());
        let step = kad_step::<Rec, Prov>(before.0, id, OutcomeView::GetRecordFound(rs.last()));
        (step.0, before.1.push(step.1))
    }
}

/// A record lookup registered to wait for `n` records is answered once,
/// when the `n`-th record arrives, with all `n` records in the order they
/// came: until then no answer is given and the lookup stays pending with
/// the same expected count and the records received so far.
pub proof fn lemma_record_lookup_waits_for_expected<Rec, Prov>(
    m: Map<u64, PendingView<Rec>>,
    id: u64,
    n: usize,
    rs: Seq<Rec>,
)
    requires
        n >= 1,
        rs.len() <= n,
    ensures
        ({
            let fed = feed_records::<Rec, Prov>(
                m.insert(id, PendingView::GetRecord { expected: n, records: Seq::empty() }),
                id,
                rs,
            );
            &&& fed.1.len() == rs.len()
            &&& forall|i: int| 0 <= i < rs.len() && i < n - 1 ==> #[trigger] fed.1[i] is None
            &&& rs.len() < n ==> fed.0.contains_key(id) && fed.0[id] == PendingView::GetRecord { expected: n, records: rs }
            &&& rs.len() == n ==> !fed.0.contains_key(id) && fed.1[n - 1] == Some(ReplyView::<Rec, Prov>::Records(Ok(rs)))
        }),
    decreases rs.len(),
{
    let m0 = m.insert(id, PendingView::GetRecord { expected: n, records: Seq::empty() });
    if rs.len() == 0 {
        assert(rs =~= Seq::<Rec>::empty());
    } else {
        let prev = rs.drop_last();
        lemma_record_lookup_waits_for_expected::<Rec, Prov>(m, id, n, prev);
        let before = feed_records::<Rec, Prov>(m0, id, prev);
        assert(before.0.contains_key(id));
        assert(before.0[id] == PendingView::GetRecord { expected: n, records: prev });
        assert(prev.push(rs.last()) =~= rs);
        let fed = feed_records::<Rec, Prov>(m0, id, rs);
        assert(fed.1 == before.1.push(kad_step::<Rec, Prov>(before.0, id, OutcomeView::GetRecordFound(rs.last())).1));
        assert forall|i: int| 0 <= i < rs.len() && i < n - 1 implies #[trigger] fed.1[i] is None by {
            if i < prev.len() {
                assert(fed.1[i] == before.1[i]);
            }
        }
    }
}

/// The pending queries after block query `id` ended with `o`, and the
/// answer it gets, if any.
pub open spec fn block_step<Rec, Prov>(
    m: Map<u64, PendingView<Rec>>,
    id: u64,
    o: Result<Seq<u8>, Seq<char>>,
) -> (Map<u64, PendingView<Rec>>, Option<ReplyView<Rec, Prov>>) {
    (
        m.remove(id),
        if m.contains_key(id) && m[id] is Get { Some(ReplyView::Block(o)) } else { None },
    )
}

/// The queries a node is waiting on, by query id.
pub struct QueryTable<Rec> {
    pending: FnvHashMap<u64, PendingQuery<Rec>>,
}

/// The values of the pending queries.
pub open spec fn pending_view<Rec>(m: Map<u64, PendingQuery<Rec>>) -> Map<u64, PendingView<Rec>> {
    m.map_values(|q: PendingQuery<Rec>| q@)
}

impl<Rec> View for QueryTable<Rec> {
    type V = Map<u64, PendingView<Rec>>;

    closed spec fn view(&self) -> Map<u64, PendingView<Rec>> {
        pending_view(self.pending@)
    }
}

/// The text of a failure, prefixed.
fn prefixed(prefix: &str, text: String) -> (r: String)
    ensures
        r@ == prefix@ + text@,
{
    let mut s = String::from_str(prefix);
    s.append(text.as_str());
    s
}

impl<Rec> QueryTable<Rec> {
    /// No query pending.
    pub fn new() -> (r: QueryTable<Rec>)
        ensures
            r@ == Map::<u64, PendingView<Rec>>::empty(),
    {
        let r = QueryTable { pending: FnvHashMap::default() };
        assert(pending_view(r.pending@) =~= Map::<u64, PendingView<Rec>>::empty());
        r
    }

    /// Starts waiting on query `id` (replacing whatever it waited for).
    pub fn register(&mut self, id: u64, query: PendingQuery<Rec>)
        ensures
            final(self)@ == old(self)@.insert(id, query@),
    {
        let ghost qv = query@;
        let _ = fnv_insert(&mut self.pending, id, query);
        assert(pending_view(self.pending@) =~= pending_view(old(self).pending@).insert(id, qv));
    }

    /// Whether query `id` is pending.
    pub fn is_pending(&self, id: u64) -> (r: bool)
        ensures
            r == self@.contains_key(id),
    {
        fnv_contains(&self.pending, id)
    }

    /// Takes in the progress of DHT query `id` and returns the answer the
    /// query gets, if it gets one now.
    pub fn on_kad_outcome<Prov>(&mut self, id: u64, outcome: KadOutcome<Rec, Prov>) -> (r: Option<QueryReply<Rec, Prov>>)
        ensures
            (final(self)@, opt_reply_view(&r)) == kad_step(old(self)@, id, outcome@),
    {
        let ghost m = old(self)@;
        let ghost ov = outcome@;
        if let KadOutcome::Other = outcome {
            return None;
        }
        let removed = fnv_remove(&mut self.pending, id);
        proof {
            assert(pending_view(self.pending@) =~= m.remove(id));
            assert(removed matches Some(q) ==> m.contains_key(id) && m[id] == q@);
        }
        match outcome {
            KadOutcome::GetRecordFound(rec) => {
                match removed {
                    Some(PendingQuery::GetRecord { expected, mut records }) => {
                        records.push(rec);
                        if records.len() >= expected {
                            Some(QueryReply::Records(Ok(records)))
                        } else {
                            let ghost rv = records@;
                            let _ = fnv_insert(&mut self.pending, id, PendingQuery::GetRecord { expected, records });
                            assert(pending_view(self.pending@) =~= m.insert(id, PendingView::GetRecord { expected, records: rv }));
                            None
                        }
                    },
                    _ => None,
                }
            },
            KadOutcome::GetRecordFailed(e) => match removed {
                Some(PendingQuery::GetRecord { .. }) => Some(QueryReply::Records(Err(prefixed("get record error: ", e)))),
                _ => None,
            },
            KadOutcome::PutRecordOk => match removed {
                Some(PendingQuery::PutRecord) => Some(QueryReply::Put(Ok(()))),
                _ => None,
            },
            KadOutcome::PutRecordFailed(e) => match removed {
                Some(PendingQuery::PutRecord) => {
                    if contains_str(e.as_str(), "QuorumFailed") || contains_str(e.as_str(), "NoKnownPeers") {
                        Some(QueryReply::Put(Ok(())))
                    } else {
                        Some(QueryReply::Put(Err(prefixed("put record error: ", e))))
                    }
                },
                _ => None,
            },
            KadOutcome::StartProvidingOk => match removed {
                Some(PendingQuery::StartProviding) => Some(QueryReply::Provide(Ok(()))),
                _ => None,
            },
            KadOutcome::StartProvidingFailed(e) => match removed {
                Some(PendingQuery::StartProviding) => Some(QueryReply::Provide(Err(prefixed("add provider error: ", e)))),
                _ => None,
            },
            KadOutcome::ProvidersFound(p) => match removed {
                Some(PendingQuery::GetProviders) => Some(QueryReply::Providers(Ok(p))),
                _ => None,
            },
            KadOutcome::ProvidersFailed(e) => match removed {
                Some(PendingQuery::GetProviders) => Some(QueryReply::Providers(Err(prefixed("get providers error: ", e)))),
                _ => None,
            },
            KadOutcome::Other => None,
        }
    }

    /// Takes in the end of block query `id` (the block, or the error text)
    /// and returns the answer the query gets, if it was waiting for a block.
    pub fn on_block_outcome<Prov>(&mut self, id: u64, outcome: Result<Vec<u8>, String>) -> (r: Option<QueryReply<Rec, Prov>>)
        ensures
            (final(self)@, opt_reply_view(&r)) == block_step::<Rec, Prov>(
                old(self)@,
                id,
                match outcome {
                    Ok(v) => Ok(v@),
                    Err(e) => Err(e@),
                },
            ),
    {
        let ghost m = old(self)@;
        let removed = fnv_remove(&mut self.pending, id);
        assert(pending_view(self.pending@) =~= m.remove(id));
        match removed {
            Some(PendingQuery::Get) => Some(QueryReply::Block(outcome)),
            _ => None,
        }
    }
}

} // verus!
