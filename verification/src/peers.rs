//! What a node knows about other peers: their addresses, where each address
//! was learned, whether it goes through a relay, and what the peers said
//! about themselves.

use vstd::prelude::*;
use crate::addr::{Addr, PartView, PeerId, normalize_addr, normalized};
use crate::assoc::{assoc_map, keys_distinct, lemma_assoc_contains, lemma_assoc_index, lemma_assoc_push, lemma_assoc_update, lemma_assoc_remove, lemma_distinct_remove, lemma_distinct_update, lemma_distinct_push};

verus! {

/// Where an address of a peer was learned.
#[derive(Debug, Clone, Copy, PartialEq, Eq, Structural)]
pub enum AddressSource {
    Dial,
    Listen,
    Identify,
    Mdns,
    Kad,
    Rendezvous,
    Relay,
}

/// One known address of a peer.
#[derive(Debug)]
pub struct AddressEntry {
    pub addr: Addr,
    pub source: AddressSource,
    pub connection_id: u64,
    pub relayed: bool,
}

/// The value of an address entry.
pub struct AddressEntryView {
    pub addr: Seq<PartView>,
    pub source: AddressSource,
    pub connection_id: u64,
    pub relayed: bool,
}

impl View for AddressEntry {
    type V = AddressEntryView;

    open spec fn view(&self) -> AddressEntryView {
        AddressEntryView {
            addr: self.addr@,
            source: self.source,
            connection_id: self.connection_id,
            relayed: self.relayed,
        }
    }
}

impl AddressEntry {
    /// A copy of this entry.
    pub fn duplicate(&self) -> (r: AddressEntry)
        ensures
            r@ == self@,
    {
        AddressEntry {
            addr: self.addr.duplicate(),
            source: self.source,
            connection_id: self.connection_id,
            relayed: self.relayed,
        }
    }
}

/// What a peer announced about itself through the identify protocol.
#[derive(Debug)]
pub struct IdentifyInfo {
    pub protocol_version: String,
    pub agent_version: String,
    pub protocols: Vec<String>,
    pub listen_addrs: Vec<Addr>,
}

/// Everything known about one peer.
#[derive(Debug)]
pub struct PeerInfo {
    pub protocol_version: Option<String>,
    pub agent_version: Option<String>,
    pub protocols: Vec<String>,
    pub listeners: Vec<Addr>,
    pub last_seen: Option<String>,
    pub rtt_nanos: Option<u128>,
    pub addresses: Vec<AddressEntry>,
}

/// The value of what is known about a peer.
pub struct PeerInfoView {
    pub protocol_version: Option<Seq<char>>,
    pub agent_version: Option<Seq<char>>,
    pub protocols: Seq<Seq<char>>,
    pub listeners: Seq<Seq<PartView>>,
    pub last_seen: Option<Seq<char>>,
    pub rtt_nanos: Option<u128>,
    pub addresses: Seq<AddressEntryView>,
}

/// The value of an optional string.
pub open spec fn opt_string_view(s: Option<String>) -> Option<Seq<char>> {
    match s {
        Some(t) => Some(t@),
        None => None,
    }
}

/// The values of a list of strings.
pub open spec fn strings_view(v: Seq<String>) -> Seq<Seq<char>> {
    v.map_values(|s: String| s@)
}

/// The values of a list of addresses.
pub open spec fn addrs_view(v: Seq<Addr>) -> Seq<Seq<PartView>> {
    v.map_values(|a: Addr| a@)
}

/// The values of a list of address entries.
pub open spec fn entries_view(v: Seq<AddressEntry>) -> Seq<AddressEntryView> {
    v.map_values(|e: AddressEntry| e@)
}

impl View for PeerInfo {
    type V = PeerInfoView;

    open spec fn view(&self) -> PeerInfoView {
        PeerInfoView {
            protocol_version: opt_string_view(self.protocol_version),
            agent_version: opt_string_view(self.agent_version),
            protocols: strings_view(self.protocols@),
            listeners: addrs_view(self.listeners@),
            last_seen: opt_string_view(self.last_seen),
            rtt_nanos: self.rtt_nanos,
            addresses: entries_view(self.addresses@),
        }
    }
}

/// Nothing known yet.
pub open spec fn empty_info() -> PeerInfoView {
    PeerInfoView {
        protocol_version: None,
        agent_version: None,
        protocols: Seq::empty(),
        listeners: Seq::empty(),
        last_seen: None,
        rtt_nanos: None,
        addresses: Seq::empty(),
    }
}

/// `after` is `before` with entry `e` taken in: the first entry with the
/// same address is replaced by `e`, or `e` is appended when there is none.
pub open spec fn ingested(before: Seq<AddressEntryView>, e: AddressEntryView, after: Seq<AddressEntryView>) -> bool {
    ||| (exists|i: int|
        0 <= i < before.len() && (#[trigger] before[i]).addr == e.addr
            && (forall|j: int| 0 <= j < i ==> before[j].addr != e.addr)
            && after == before.update(i, e))
    ||| ((forall|j: int| 0 <= j < before.len() ==> before[j].addr != e.addr) && after == before.push(e))
}

/// No address appears twice in a list of entries.
pub open spec fn addresses_distinct(v: Seq<AddressEntryView>) -> bool {
    forall|i: int, j: int| 0 <= i < v.len() && 0 <= j < v.len() && i != j ==> v[i].addr != v[j].addr
}

/// Replacing an entry by one with the same address keeps addresses distinct.
proof fn lemma_update_keeps_distinct(before: Seq<AddressEntryView>, i: int, e: AddressEntryView)
    requires
        addresses_distinct(before),
        0 <= i < before.len(),
        before[i].addr == e.addr,
    ensures
        addresses_distinct(before.update(i, e)),
{
    let after = before.update(i, e);
    assert forall|a: int, b: int| 0 <= a < after.len() && 0 <= b < after.len() && a != b implies after[a].addr != after[b].addr by {
        assert(after[a].addr == before[a].addr);
        assert(after[b].addr == before[b].addr);
    }
}

/// Appending an entry with a new address keeps addresses distinct.
proof fn lemma_push_keeps_distinct(before: Seq<AddressEntryView>, e: AddressEntryView)
    requires
        addresses_distinct(before),
        forall|j: int| 0 <= j < before.len() ==> before[j].addr != e.addr,
    ensures
        addresses_distinct(before.push(e)),
{
    let after = before.push(e);
    assert forall|a: int, b: int| 0 <= a < after.len() && 0 <= b < after.len() && a != b implies after[a].addr != after[b].addr by {
        if a < before.len() {
            assert(after[a] == before[a]);
        }
        if b < before.len() {
            assert(after[b] == before[b]);
        }
    }
}

/// Taking in an address keeps each address once, and the entry taken in is
/// then among the entries.
pub proof fn lemma_ingest_keeps_addresses_distinct(before: Seq<AddressEntryView>, e: AddressEntryView, after: Seq<AddressEntryView>)
    requires
        addresses_distinct(before),
        ingested(before, e, after),
    ensures
        addresses_distinct(after),
        exists|i: int| 0 <= i < after.len() && after[i] == e,
        after.len() == before.len() || after.len() == before.len() + 1,
{
    if forall|j: int| 0 <= j < before.len() ==> before[j].addr != e.addr {
        assert(after == before.push(e));
        assert(after[before.len() as int] == e);
        lemma_push_keeps_distinct(before, e);
    } else {
        let i = choose|i: int|
            0 <= i < before.len() && (#[trigger] before[i]).addr == e.addr && (forall|j: int| 0 <= j < i ==> before[j].addr != e.addr)
                && after == before.update(i, e);
        assert(after[i] == e);
        lemma_update_keeps_distinct(before, i, e);
    }
}

/// A copy of an optional string.
pub fn copy_opt_string(s: &Option<String>) -> (r: Option<String>)
    ensures
        opt_string_view(r) == opt_string_view(*s),
{
    match s {
        Some(t) => Some(t.clone()),
        None => None,
    }
}

/// A copy of a list of strings.
pub fn copy_strings(v: &Vec<String>) -> (r: Vec<String>)
    ensures
        strings_view(r@) == strings_view(v@),
{
    let mut out: Vec<String> = Vec::new();
    let mut i: usize = 0;
    while i < v.len()
        invariant
            i <= v.len(),
            strings_view(out@) == strings_view(v@).subrange(0, i as int),
        decreases v.len() - i,
    {
        let s = v[i].clone();
        proof {
            assert(strings_view(out@.push(s)) =~= strings_view(out@).push(s@));
            assert(strings_view(v@).subrange(0, i + 1) =~= strings_view(v@).subrange(0, i as int).push(v@[i as int]@));
        }
        out.push(s);
        i = i + 1;
    }
    assert(strings_view(v@).subrange(0, v@.len() as int) == strings_view(v@));
    out
}

/// A copy of a list of addresses.
pub fn copy_addrs(v: &Vec<Addr>) -> (r: Vec<Addr>)
    ensures
        addrs_view(r@) == addrs_view(v@),
{
    let mut out: Vec<Addr> = Vec::new();
    let mut i: usize = 0;
    while i < v.len()
        invariant
            i <= v.len(),
            addrs_view(out@) == addrs_view(v@).subrange(0, i as int),
        decreases v.len() - i,
    {
        let a = v[i].duplicate();
        proof {
            assert(addrs_view(out@.push(a)) =~= addrs_view(out@).push(a@));
            assert(addrs_view(v@).subrange(0, i + 1) =~= addrs_view(v@).subrange(0, i as int).push(v@[i as int]@));
        }
        out.push(a);
        i = i + 1;
    }
    assert(addrs_view(v@).subrange(0, v@.len() as int) == addrs_view(v@));
    out
}

/// A copy of a list of address entries.
pub fn copy_entries(v: &Vec<AddressEntry>) -> (r: Vec<AddressEntry>)
    ensures
        entries_view(r@) == entries_view(v@),
{
    let mut out: Vec<AddressEntry> = Vec::new();
    let mut i: usize = 0;
    while i < v.len()
        invariant
            i <= v.len(),
            entries_view(out@) == entries_view(v@).subrange(0, i as int),
        decreases v.len() - i,
    {
        let e = v[i].duplicate();
        proof {
            assert(entries_view(out@.push(e)) =~= entries_view(out@).push(e@));
            assert(entries_view(v@).subrange(0, i + 1) =~= entries_view(v@).subrange(0, i as int).push(v@[i as int]@));
        }
        out.push(e);
        i = i + 1;
    }
    assert(entries_view(v@).subrange(0, v@.len() as int) == entries_view(v@));
    out
}

impl Default for PeerInfo {
    fn default() -> (r: PeerInfo)
        ensures
            r@ == empty_info(),
    {
        let r = PeerInfo {
            protocol_version: None,
            agent_version: None,
            protocols: Vec::new(),
            listeners: Vec::new(),
            last_seen: None,
            rtt_nanos: None,
            addresses: Vec::new(),
        };
        assert(r@.protocols =~= Seq::<Seq<char>>::empty());
        assert(r@.listeners =~= Seq::<Seq<PartView>>::empty());
        assert(r@.addresses =~= Seq::<AddressEntryView>::empty());
        r
    }
}

impl PeerInfo {
    /// A copy of what is known.
    pub fn duplicate(&self) -> (r: PeerInfo)
        ensures
            r@ == self@,
    {
        PeerInfo {
            protocol_version: copy_opt_string(&self.protocol_version),
            agent_version: copy_opt_string(&self.agent_version),
            protocols: copy_strings(&self.protocols),
            listeners: copy_addrs(&self.listeners),
            last_seen: copy_opt_string(&self.last_seen),
            rtt_nanos: self.rtt_nanos,
            addresses: copy_entries(&self.addresses),
        }
    }

    /// The known addresses with where they were learned.
    pub fn addresses(&self) -> (r: &Vec<AddressEntry>)
        ensures
            entries_view(r@) == self@.addresses,
    {
        &self.addresses
    }

    /// Records the round-trip time to the peer.
    pub fn set_rtt(&mut self, rtt_nanos: Option<u128>)
        ensures
            final(self)@ == (PeerInfoView { rtt_nanos, ..old(self)@ }),
    {
        self.rtt_nanos = rtt_nanos;
    }

    /// Takes in an address of the peer: an entry for the same address is
    /// replaced, a new address is appended.
    pub fn ingest_address(&mut self, addr: Addr, source: AddressSource, relayed: bool, connection_id: u64)
        ensures
            ingested(
                old(self)@.addresses,
                AddressEntryView { addr: addr@, source, connection_id, relayed },
                final(self)@.addresses,
            ),
            final(self)@ == (PeerInfoView { addresses: final(self)@.addresses, ..old(self)@ }),
    {
        let ghost before = entries_view(self.addresses@);
        let entry = AddressEntry { addr, source, connection_id, relayed };
        let ghost ev = entry@;
        assert(ev == AddressEntryView { addr: addr@, source, connection_id, relayed });
        let mut i: usize = 0;
        let mut found = false;
        while i < self.addresses.len()
            invariant_except_break
                !found,
            invariant
                i <= self.addresses.len(),
                forall|j: int| 0 <= j < i ==> before[j].addr != ev.addr,
                ev == entry@,
                before == entries_view(self.addresses@),
                before == old(self)@.addresses,
                self@ == (PeerInfoView { addresses: before, ..old(self)@ }),
            ensures
                found ==> i < self.addresses.len() && before[i as int].addr == ev.addr
                    && forall|j: int| 0 <= j < i ==> before[j].addr != ev.addr,
                !found ==> forall|j: int| 0 <= j < before.len() ==> before[j].addr != ev.addr,
            decreases self.addresses.len() - i,
        {
            if self.addresses[i].addr.same_as(&entry.addr) {
                found = true;
                break;
            }
            i = i + 1;
        }
        if found {
            self.addresses.set(i, entry);
            assert(entries_view(self.addresses@) =~= before.update(i as int, ev));
            assert(before[i as int].addr == ev.addr);
            return;
        }
        self.addresses.push(entry);
        assert(entries_view(self.addresses@) =~= before.push(ev));
    }
}

/// A peer and what is known about it.
#[derive(Debug)]
pub struct BookEntry {
    pub peer: PeerId,
    pub info: PeerInfo,
}

/// The entries as key/value pairs.
pub open spec fn book_pairs(v: Seq<BookEntry>) -> Seq<(Seq<u8>, PeerInfoView)> {
    v.map_values(|e: BookEntry| (e.peer@, e.info@))
}

/// The address book: one record per known peer.
pub struct AddressBook {
    entries: Vec<BookEntry>,
}

impl AddressBook {
    /// No peer appears twice, and no peer has the same address twice.
    #[verifier::type_invariant]
    spec fn inv(&self) -> bool {
        &&& keys_distinct(book_pairs(self.entries@))
        &&& forall|i: int| 0 <= i < self.entries@.len() ==> addresses_distinct(#[trigger] self.entries@[i].info@.addresses)
    }
}

impl View for AddressBook {
    type V = Map<Seq<u8>, PeerInfoView>;

    closed spec fn view(&self) -> Map<Seq<u8>, PeerInfoView> {
        assoc_map(book_pairs(self.entries@))
    }
}


/// How chrono renders the UTC time `secs` seconds and `nanos` nanoseconds
/// after the Unix epoch (`None` when chrono cannot represent it).
pub uninterp spec fn utc_datetime_text(secs: i64, nanos: u32) -> Option<Seq<char>>;

/// Builds the time with `DateTime::<Utc>::from_timestamp` and renders it
/// with its `Display`. The contract claims only that the outcome is a
/// function of the two numbers.
#[verifier::external_body]
fn utc_text(secs: i64, nanos: u32) -> (r: Option<String>)
    ensures
        opt_string_view(r) == utc_datetime_text(secs, nanos),
{
    chrono::DateTime::<chrono::Utc>::from_timestamp(secs, nanos).map(|d| d.to_string())
}

/// What is known of `peer` in `book`, or nothing when it is unknown.
pub open spec fn prior_info(book: Map<Seq<u8>, PeerInfoView>, peer: Seq<u8>) -> PeerInfoView {
    if book.contains_key(peer) {
        book[peer]
    } else {
        empty_info()
    }
}

/// Whether some known address of the peer is a direct one (not through a relay).
pub open spec fn has_direct_address(info: PeerInfoView) -> bool {
    exists|i: int| 0 <= i < info.addresses.len() && !(#[trigger] info.addresses[i]).relayed
}

impl AddressBook {
    /// An empty address book.
    pub fn new() -> (r: AddressBook)
        ensures
            r@ == Map::<Seq<u8>, PeerInfoView>::empty(),
    {
        let r = AddressBook { entries: Vec::new() };
        assert(book_pairs(r.entries@) =~= Seq::<(Seq<u8>, PeerInfoView)>::empty());
        r
    }

    /// The position of `peer` among the entries, if it is known.
    fn find(&self, peer: &PeerId) -> (r: Option<usize>)
        ensures
            r matches Some(i) ==> i < self.entries@.len() && self.entries@[i as int].peer@ == peer@,
            r is None ==> forall|j: int| 0 <= j < self.entries@.len() ==> self.entries@[j].peer@ != peer@,
    {
        let mut i: usize = 0;
        while i < self.entries.len()
            invariant
                i <= self.entries.len(),
                forall|j: int| 0 <= j < i ==> self.entries@[j].peer@ != peer@,
            decreases self.entries.len() - i,
        {
            if self.entries[i].peer.same_as(peer) {
                return Some(i);
            }
            i = i + 1;
        }
        None
    }

    /// Facts linking a found position to the map.
    proof fn lemma_found(&self, peer: Seq<u8>, i: int)
        requires
            keys_distinct(book_pairs(self.entries@)),
            0 <= i < self.entries@.len(),
            self.entries@[i].peer@ == peer,
        ensures
            self@.contains_key(peer),
            self@[peer] == self.entries@[i].info@,
    {
        lemma_assoc_index(book_pairs(self.entries@), i);
    }

    /// Facts for a peer that no entry carries.
    proof fn lemma_absent(&self, peer: Seq<u8>)
        requires
            forall|j: int| 0 <= j < self.entries@.len() ==> self.entries@[j].peer@ != peer,
        ensures
            !self@.contains_key(peer),
    {
        let s = book_pairs(self.entries@);
        lemma_assoc_contains(s, peer);
        if self@.contains_key(peer) {
            let j = choose|j: int| 0 <= j < s.len() && s[j].0 == peer;
            assert(s[j].0 == self.entries@[j].peer@);
        }
    }

    /// Stores `info` for `peer`, replacing what was known.
    fn store(&mut self, peer: &PeerId, info: PeerInfo)
        requires
            addresses_distinct(info@.addresses),
        ensures
            final(self)@ == old(self)@.insert(peer@, info@),
    {
        proof {
            use_type_invariant(&*self);
        }
        let ghost s = book_pairs(self.entries@);
        let ghost iv = info@;
        match self.find(peer) {
            Some(i) => {
                proof {
                    lemma_distinct_update(s, i as int, iv);
                    lemma_assoc_update(s, i as int, iv);
                }
                let entry = BookEntry { peer: peer.duplicate(), info };
                let mut entries: Vec<BookEntry> = Vec::new();
                std::mem::swap(&mut entries, &mut self.entries);
                let ghost before = entries@;
                entries.set(i, entry);
                assert(book_pairs(entries@) =~= s.update(i as int, (s[i as int].0, iv)));
                assert forall|j: int| 0 <= j < entries@.len() implies addresses_distinct(#[trigger] entries@[j].info@.addresses) by {
                    if j != i {
                        assert(entries@[j] == before[j]);
                    }
                }
                self.entries = entries;
            },
            None => {
                proof {
                    lemma_distinct_push(s, peer@, iv);
                    lemma_assoc_push(s, peer@, iv);
                }
                let entry = BookEntry { peer: peer.duplicate(), info };
                let mut entries: Vec<BookEntry> = Vec::new();
                std::mem::swap(&mut entries, &mut self.entries);
                let ghost before = entries@;
                entries.push(entry);
                assert(book_pairs(entries@) =~= s.push((peer@, iv)));
                assert forall|j: int| 0 <= j < entries@.len() implies addresses_distinct(#[trigger] entries@[j].info@.addresses) by {
                    if j < before.len() {
                        assert(entries@[j] == before[j]);
                    }
                }
                self.entries = entries;
            },
        }
    }

    /// A copy of what is known of `peer_id`, if it is known.
    pub fn info(&self, peer_id: &PeerId) -> (r: Option<PeerInfo>)
        ensures
            r matches Some(i) ==> self@.contains_key(peer_id@) && i@ == self@[peer_id@] && addresses_distinct(i@.addresses),
            r is None ==> !self@.contains_key(peer_id@),
    {
        proof {
            use_type_invariant(self);
        }
        match self.find(peer_id) {
            Some(i) => {
                proof {
                    self.lemma_found(peer_id@, i as int);
                }
                Some(self.entries[i].info.duplicate())
            },
            None => {
                proof {
                    self.lemma_absent(peer_id@);
                }
                None
            },
        }
    }

    /// Records an address of `peer`, made to end with `/p2p/<peer>` when it
    /// names no peer yet. An unknown peer gets a fresh record first.
    pub fn add_address(&mut self, peer: &PeerId, address: Addr, source: AddressSource, is_relayed: bool, connection_id: u64)
        ensures
            final(self)@ == old(self)@.insert(peer@, final(self)@[peer@]),
            final(self)@[peer@] == (PeerInfoView {
                addresses: final(self)@[peer@].addresses,
                ..prior_info(old(self)@, peer@)
            }),
            ingested(
                prior_info(old(self)@, peer@).addresses,
                AddressEntryView {
                    addr: normalized(address@, peer@),
                    source,
                    connection_id,
                    relayed: is_relayed,
                },
                final(self)@[peer@].addresses,
            ),
            addresses_distinct(final(self)@[peer@].addresses),
    {
        let mut addr = address.duplicate();
        normalize_addr(&mut addr, peer);
        let mut info = match self.info(peer) {
            Some(i) => i,
            None => PeerInfo::default(),
        };
        let ghost before = info@.addresses;
        info.ingest_address(addr, source, is_relayed, connection_id);
        proof {
            lemma_ingest_keeps_addresses_distinct(
                before,
                AddressEntryView { addr: normalized(address@, peer@), source, connection_id, relayed: is_relayed },
                info@.addresses,
            );
        }
        self.store(peer, info);
    }

    /// The known peers, each once.
    pub fn peers(&self) -> (r: Vec<PeerId>)
        ensures
            forall|k: Seq<u8>| self@.contains_key(k) <==> exists|i: int| 0 <= i < r@.len() && (#[trigger] r@[i])@ == k,
            forall|i: int, j: int| 0 <= i < r@.len() && 0 <= j < r@.len() && i != j ==> r@[i]@ != r@[j]@,
    {
        proof {
            use_type_invariant(self);
        }
        let ghost s = book_pairs(self.entries@);
        let mut out: Vec<PeerId> = Vec::new();
        let mut i: usize = 0;
        while i < self.entries.len()
            invariant
                i <= self.entries.len(),
                s == book_pairs(self.entries@),
                keys_distinct(s),
                out@.len() == i,
                forall|j: int| 0 <= j < i ==> (#[trigger] out@[j])@ == s[j].0,
            decreases self.entries.len() - i,
        {
            out.push(self.entries[i].peer.duplicate());
            i = i + 1;
        }
        proof {
            assert forall|k: Seq<u8>| self@.contains_key(k) <==> exists|i: int| 0 <= i < out@.len() && (#[trigger] out@[i])@ == k by {
                lemma_assoc_contains(s, k);
                if self@.contains_key(k) {
                    let j = choose|j: int| 0 <= j < s.len() && s[j].0 == k;
                    assert(out@[j]@ == k);
                }
                if exists|i: int| 0 <= i < out@.len() && (#[trigger] out@[i])@ == k {
                    let j = choose|j: int| 0 <= j < out@.len() && (#[trigger] out@[j])@ == k;
                    assert(s[j].0 == k);
                }
            }
            assert forall|a: int, b: int| 0 <= a < out@.len() && 0 <= b < out@.len() && a != b implies out@[a]@ != out@[b]@ by {
                assert(out@[a]@ == s[a].0);
                assert(out@[b]@ == s[b].0);
            }
        }
        out
    }

    /// Records when `peer_id` was last seen, as text, if the peer is known;
    /// an unknown peer is left unknown.
    pub fn set_last_seen_text(&mut self, peer_id: &PeerId, last_seen: String)
        ensures
            old(self)@.contains_key(peer_id@) ==> final(self)@ == old(self)@.insert(
                peer_id@,
                PeerInfoView { last_seen: Some(last_seen@), ..old(self)@[peer_id@] },
            ),
            !old(self)@.contains_key(peer_id@) ==> final(self)@ == old(self)@,
    {
        if let Some(mut info) = self.info(peer_id) {
            info.last_seen = Some(last_seen);
            self.store(peer_id, info);
        }
    }

    /// Records when `peer_id` was last seen, given as a UTC time (seconds and
    /// nanoseconds since the Unix epoch) and kept as chrono renders it, if
    /// the peer is known; an unknown peer, or a time chrono cannot
    /// represent, changes nothing.
    pub fn set_last_seen(&mut self, peer_id: &PeerId, secs: i64, nanos: u32)
        ensures
            old(self)@.contains_key(peer_id@) && utc_datetime_text(secs, nanos) is Some ==> final(self)@ == old(self)@.insert(
                peer_id@,
                PeerInfoView { last_seen: utc_datetime_text(secs, nanos), ..old(self)@[peer_id@] },
            ),
            !old(self)@.contains_key(peer_id@) || utc_datetime_text(secs, nanos) is None ==> final(self)@ == old(self)@,
    {
        if let Some(text) = utc_text(secs, nanos) {
            self.set_last_seen_text(peer_id, text);
        }
    }

    /// Records the round-trip time to `peer_id`, if the peer is known; an
    /// unknown peer is left unknown.
    pub fn set_rtt(&mut self, peer_id: &PeerId, rtt_nanos: Option<u128>)
        ensures
            old(self)@.contains_key(peer_id@) ==> final(self)@ == old(self)@.insert(
                peer_id@,
                PeerInfoView { rtt_nanos, ..old(self)@[peer_id@] },
            ),
            !old(self)@.contains_key(peer_id@) ==> final(self)@ == old(self)@,
    {
        if let Some(mut info) = self.info(peer_id) {
            info.set_rtt(rtt_nanos);
            self.store(peer_id, info);
        }
    }

    /// Records what `peer_id` announced about itself (its versions, its
    /// protocols and its listen addresses); an unknown peer gets a record.
    pub fn set_info(&mut self, peer_id: &PeerId, identify: &IdentifyInfo)
        ensures
            final(self)@ == old(self)@.insert(
                peer_id@,
                PeerInfoView {
                    protocol_version: Some(identify.protocol_version@),
                    agent_version: Some(identify.agent_version@),
                    protocols: strings_view(identify.protocols@),
                    listeners: addrs_view(identify.listen_addrs@),
                    ..prior_info(old(self)@, peer_id@)
                },
            ),
    {
        let mut info = match self.info(peer_id) {
            Some(i) => i,
            None => PeerInfo::default(),
        };
        info.protocol_version = Some(identify.protocol_version.clone());
        info.agent_version = Some(identify.agent_version.clone());
        info.protocols = copy_strings(&identify.protocols);
        info.listeners = copy_addrs(&identify.listen_addrs);
        self.store(peer_id, info);
    }

    /// The known addresses of `peer_id`, in the order they were learned;
    /// none for an unknown peer.
    pub fn get_peer_addresses(&self, peer_id: &PeerId) -> (r: Vec<Addr>)
        ensures
            self@.contains_key(peer_id@) ==> addrs_view(r@) == self@[peer_id@].addresses.map_values(|e: AddressEntryView| e.addr),
            !self@.contains_key(peer_id@) ==> r@.len() == 0,
            forall|i: int, j: int| 0 <= i < r@.len() && 0 <= j < r@.len() && i != j ==> r@[i]@ != r@[j]@,
    {
        match self.info(peer_id) {
            Some(info) => {
                let mut out: Vec<Addr> = Vec::new();
                let ghost target = info@.addresses.map_values(|e: AddressEntryView| e.addr);
                let mut i: usize = 0;
                while i < info.addresses.len()
                    invariant
                        i <= info.addresses.len(),
                        target == entries_view(info.addresses@).map_values(|e: AddressEntryView| e.addr),
                        addrs_view(out@) == target.subrange(0, i as int),
                    decreases info.addresses.len() - i,
                {
                    let a = info.addresses[i].addr.duplicate();
                    proof {
                        assert(addrs_view(out@.push(a)) =~= addrs_view(out@).push(a@));
                        assert(target.subrange(0, i + 1) =~= target.subrange(0, i as int).push(target[i as int]));
                    }
                    out.push(a);
                    i = i + 1;
                }
                assert(target.subrange(0, target.len() as int) == target);
                assert forall|a: int, b: int| 0 <= a < out@.len() && 0 <= b < out@.len() && a != b implies out@[a]@ != out@[b]@ by {
                    assert(out@[a]@ == addrs_view(out@)[a]);
                    assert(out@[b]@ == addrs_view(out@)[b]);
                    assert(target[a] == info@.addresses[a].addr);
                    assert(target[b] == info@.addresses[b].addr);
                }
                out
            },
            None => Vec::new(),
        }
    }

    /// Forgets `peer_id` and everything known about it.
    pub fn remove_peer(&mut self, peer_id: &PeerId)
        ensures
            final(self)@ == old(self)@.remove(peer_id@),
    {
        proof {
            use_type_invariant(&*self);
        }
        let ghost s = book_pairs(self.entries@);
        match self.find(peer_id) {
            Some(i) => {
                proof {
                    lemma_distinct_remove(s, i as int);
                    lemma_assoc_remove(s, i as int);
                }
                let mut entries: Vec<BookEntry> = Vec::new();
                std::mem::swap(&mut entries, &mut self.entries);
                let ghost before = entries@;
                let _ = entries.remove(i);
                assert(book_pairs(entries@) =~= s.remove(i as int));
                assert forall|j: int| 0 <= j < entries@.len() implies addresses_distinct(#[trigger] entries@[j].info@.addresses) by {
                    if j < i {
                        assert(entries@[j] == before[j]);
                    } else {
                        assert(entries@[j] == before[j + 1]);
                    }
                }
                self.entries = entries;
            },
            None => {
                proof {
                    self.lemma_absent(peer_id@);
                    assert(old(self)@.remove(peer_id@) =~= old(self)@);
                }
            },
        }
    }
}

/// Whether `peer_id` has a known address that does not go through a relay.
pub fn has_direct_connection(address_book: &AddressBook, peer_id: &PeerId) -> (r: bool)
    ensures
        r == (address_book@.contains_key(peer_id@) && has_direct_address(address_book@[peer_id@])),
{
    if let Some(info) = address_book.info(peer_id) {
        let mut i: usize = 0;
        while i < info.addresses.len()
            invariant
                i <= info.addresses.len(),
                address_book@.contains_key(peer_id@),
                info@ == address_book@[peer_id@],
                forall|j: int| 0 <= j < i ==> (#[trigger] info@.addresses[j]).relayed,
            decreases info.addresses.len() - i,
        {
            if !info.addresses[i].relayed {
                assert(!info@.addresses[i as int].relayed);
                return true;
            }
            i = i + 1;
        }
        false
    } else {
        false
    }
}

} // verus!
