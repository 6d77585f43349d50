//! Multiaddresses as the library reads them: a sequence of components, of
//! which the peer-id (`/p2p/..`) and relay-circuit (`/p2p-circuit`)
//! components matter to the logic and the others are kept by their text.

use libp2p::multiaddr::Protocol;
use libp2p::Multiaddr;
use vstd::prelude::*;
use crate::bytes::{bytes_equal, copy_bytes};

verus! {

/// A peer's identity, held as the bytes of its multihash.
#[derive(Debug, Clone)]
pub struct PeerId {
    pub bytes: Vec<u8>,
}

impl View for PeerId {
    type V = Seq<u8>;

    open spec fn view(&self) -> Seq<u8> {
        self.bytes@
    }
}

impl PeerId {
    /// A peer id made of the given multihash bytes.
    pub fn from_bytes(bytes: Vec<u8>) -> (r: PeerId)
        ensures
            r@ == bytes@,
    {
        PeerId { bytes }
    }

    /// A copy of this peer id.
    pub fn duplicate(&self) -> (r: PeerId)
        ensures
            r@ == self@,
    {
        PeerId { bytes: copy_bytes(self.bytes.as_slice()) }
    }

    /// The peer id as libp2p renders it (base58), or `None` when the bytes
    /// are no peer id.
    pub fn base58(&self) -> (r: Option<String>)
        ensures
            opt_text_view(&r) == peer_id_text(self@),
    {
        peer_id_base58(self.bytes.as_slice())
    }

    /// Whether both ids name the same peer.
    pub fn same_as(&self, other: &PeerId) -> (r: bool)
        ensures
            r == (self@ == other@),
    {
        bytes_equal(self.bytes.as_slice(), other.bytes.as_slice())
    }
}

/// One component of a multiaddress.
#[derive(Debug, Clone)]
pub enum AddrPart {
    /// `/p2p/<peer>`: the peer the address leads to.
    P2p(PeerId),
    /// `/p2p-circuit`: the address goes through a relay.
    P2pCircuit,
    /// Any other component, by its text (such as `/ip4/127.0.0.1` or `/tcp/80`).
    Other(String),
}

/// The value of an address component.
pub enum PartView {
    P2p(Seq<u8>),
    P2pCircuit,
    Other(Seq<char>),
}

impl View for AddrPart {
    type V = PartView;

    open spec fn view(&self) -> PartView {
        match self {
            AddrPart::P2p(p) => PartView::P2p(p@),
            AddrPart::P2pCircuit => PartView::P2pCircuit,
            AddrPart::Other(s) => PartView::Other(s@),
        }
    }
}

impl AddrPart {
    /// A copy of this component.
    pub fn duplicate(&self) -> (r: AddrPart)
        ensures
            r@ == self@,
    {
        match self {
            AddrPart::P2p(p) => AddrPart::P2p(p.duplicate()),
            AddrPart::P2pCircuit => AddrPart::P2pCircuit,
            AddrPart::Other(s) => AddrPart::Other(s.clone()),
        }
    }

    /// Whether both components are the same.
    pub fn same_as(&self, other: &AddrPart) -> (r: bool)
        ensures
            r == (self@ == other@),
    {
        match (self, other) {
            (AddrPart::P2p(a), AddrPart::P2p(b)) => a.same_as(b),
            (AddrPart::P2pCircuit, AddrPart::P2pCircuit) => true,
            (AddrPart::Other(a), AddrPart::Other(b)) => String::eq(a, b),
            _ => false,
        }
    }
}

/// A multiaddress: its components in order.
#[derive(Debug, Clone)]
pub struct Addr {
    pub parts: Vec<AddrPart>,
}

/// The values of a list of components.
pub open spec fn parts_view(parts: Seq<AddrPart>) -> Seq<PartView> {
    parts.map_values(|p: AddrPart| p@)
}

impl View for Addr {
    type V = Seq<PartView>;

    open spec fn view(&self) -> Seq<PartView> {
        parts_view(self.parts@)
    }
}

/// The peer of the first `/p2p` component, if any.
pub open spec fn first_peer(parts: Seq<PartView>) -> Option<Seq<u8>>
    decreases parts.len(),
{
    if parts.len() == 0 {
        None
    } else {
        match parts[0] {
            PartView::P2p(b) => Some(b),
            _ => first_peer(parts.drop_first()),
        }
    }
}

/// Whether some component is a `/p2p` component.
pub open spec fn has_peer_part(parts: Seq<PartView>) -> bool {
    exists|i: int| 0 <= i < parts.len() && parts[i] is P2p
}

/// Whether the last component is `/p2p/<peer>`.
pub open spec fn ends_with_peer(parts: Seq<PartView>, peer: Seq<u8>) -> bool {
    parts.len() > 0 && parts.last() == PartView::P2p(peer)
}

/// The text of a component, given how peer ids render.
pub open spec fn part_text(p: PartView) -> Option<Seq<char>> {
    match p {
        PartView::P2p(b) => match peer_id_text(b) {
            Some(t) => Some("/p2p/"@ + t),
            None => None,
        },
        PartView::P2pCircuit => Some("/p2p-circuit"@),
        PartView::Other(t) => Some(t),
    }
}

/// The text of an address: the texts of its components, one after another.
pub open spec fn addr_text(parts: Seq<PartView>) -> Option<Seq<char>>
    decreases parts.len(),
{
    if parts.len() == 0 {
        Some(Seq::empty())
    } else {
        match (addr_text(parts.drop_last()), part_text(parts.last())) {
            (Some(a), Some(b)) => Some(a + b),
            _ => None,
        }
    }
}

/// An address whose text is undefined on a prefix has no text.
proof fn lemma_addr_text_prefix_none(parts: Seq<PartView>, k: int)
    requires
        0 <= k <= parts.len(),
        addr_text(parts.subrange(0, k)) is None,
    ensures
        addr_text(parts) is None,
    decreases parts.len(),
{
    if k < parts.len() {
        assert(parts.drop_last().subrange(0, k) == parts.subrange(0, k));
        lemma_addr_text_prefix_none(parts.drop_last(), k);
    } else {
        assert(parts.subrange(0, k) == parts);
    }
}

/// What libp2p renders, in base58, for the peer id with multihash `bytes`
/// (`None` when the bytes are no peer id).
pub uninterp spec fn peer_id_text(bytes: Seq<u8>) -> Option<Seq<char>>;

/// The components libp2p's `Multiaddr` parser finds in `text`, mapped to
/// the library's components (`None` when the text is no multiaddress).
pub uninterp spec fn multiaddr_parts(text: Seq<char>) -> Option<Seq<PartView>>;

/// The value of an optional text.
pub open spec fn opt_text_view(r: &Option<String>) -> Option<Seq<char>> {
    match r {
        Some(s) => Some(s@),
        None => None,
    }
}

/// Calls `libp2p::PeerId::from_bytes` and `PeerId::to_base58`. The contract
/// claims only that the outcome is a function of the bytes.
#[verifier::external_body]
fn peer_id_base58(bytes: &[u8]) -> (r: Option<String>)
    ensures
        opt_text_view(&r) == peer_id_text(bytes@),
{
    libp2p::PeerId::from_bytes(bytes).ok().map(|p| p.to_base58())
}

/// Calls `<Multiaddr as FromStr>::from_str` and lists the components. The
/// contract claims only that the outcome is a function of the text.
#[verifier::external_body]
fn parse_multiaddr_parts(text: &str) -> (r: Option<Vec<AddrPart>>)
    ensures
        r matches Some(v) ==> multiaddr_parts(text@) == Some(parts_view(v@)),
        r is None ==> multiaddr_parts(text@) is None,
{
    let addr: Multiaddr = text.parse().ok()?;
    Some(addr.iter().map(|p| match p {
        Protocol::P2p(id) => AddrPart::P2p(PeerId { bytes: id.to_bytes() }),
        Protocol::P2pCircuit => AddrPart::P2pCircuit,
        other => AddrPart::Other(other.to_string()),
    }).collect())
}

impl Addr {
    /// The address with no components.
    pub fn empty() -> (r: Addr)
        ensures
            r@ == Seq::<PartView>::empty(),
    {
        Addr { parts: Vec::new() }
    }

    /// Parses a multiaddress from its text, such as `/ip4/127.0.0.1/tcp/80`.
    pub fn parse(text: &str) -> (r: Option<Addr>)
        ensures
            r matches Some(a) ==> multiaddr_parts(text@) == Some(a@),
            r is None ==> multiaddr_parts(text@) is None,
    {
        match parse_multiaddr_parts(text) {
            Some(parts) => Some(Addr { parts }),
            None => None,
        }
    }

    /// A copy of this address.
    pub fn duplicate(&self) -> (r: Addr)
        ensures
            r@ == self@,
    {
        let mut parts: Vec<AddrPart> = Vec::new();
        let mut i: usize = 0;
        while i < self.parts.len()
            invariant
                i <= self.parts.len(),
                parts_view(parts@) == parts_view(self.parts@).subrange(0, i as int),
            decreases self.parts.len() - i,
        {
            let part = self.parts[i].duplicate();
            proof {
                let pv = parts_view(parts@);
                assert(parts_view(parts@.push(part)) =~= pv.push(part@));
                assert(parts_view(self.parts@).subrange(0, i + 1) =~= parts_view(self.parts@).subrange(0, i as int).push(self@[i as int]));
            }
            parts.push(part);
            i = i + 1;
        }
        assert(parts_view(self.parts@).subrange(0, self.parts@.len() as int) == parts_view(self.parts@));
        Addr { parts }
    }

    /// Whether both addresses have the same components.
    pub fn same_as(&self, other: &Addr) -> (r: bool)
        ensures
            r == (self@ == other@),
    {
        if self.parts.len() != other.parts.len() {
            assert(self@.len() != other@.len());
            return false;
        }
        let mut i: usize = 0;
        while i < self.parts.len()
            invariant
                i <= self.parts.len(),
                self.parts.len() == other.parts.len(),
                forall|j: int| 0 <= j < i ==> self@[j] == other@[j],
            decreases self.parts.len() - i,
        {
            if !self.parts[i].same_as(&other.parts[i]) {
                assert(self@[i as int] != other@[i as int]);
                return false;
            }
            i = i + 1;
        }
        assert(self@ =~= other@);
        true
    }

    /// Appends a component.
    pub fn push(&mut self, part: AddrPart)
        ensures
            final(self)@ == old(self)@.push(part@),
    {
        self.parts.push(part);
        assert(parts_view(self.parts@) =~= parts_view(old(self).parts@).push(part@));
    }

    /// The address's text, component by component; `None` when a `/p2p`
    /// component holds bytes that are no peer id.
    pub fn to_string(&self) -> (r: Option<String>)
        ensures
            opt_text_view(&r) == addr_text(self@),
    {
        let mut out = String::new();
        let mut i: usize = 0;
        while i < self.parts.len()
            invariant
                i <= self.parts.len(),
                addr_text(self@.subrange(0, i as int)) == Some(out@),
            decreases self.parts.len() - i,
        {
            assert(self@.subrange(0, i + 1).drop_last() == self@.subrange(0, i as int));
            match &self.parts[i] {
                AddrPart::P2p(p) => {
                    match peer_id_base58(p.bytes.as_slice()) {
                        Some(t) => {
                            out.append("/p2p/");
                            out.append(t.as_str());
                        },
                        None => {
                            proof {
                                assert(self@.subrange(0, i + 1).last() == self@[i as int]);
                                lemma_addr_text_prefix_none(self@, i + 1);
                            }
                            return None;
                        },
                    }
                },
                AddrPart::P2pCircuit => {
                    out.append("/p2p-circuit");
                },
                AddrPart::Other(t) => {
                    out.append(t.as_str());
                },
            }
            i = i + 1;
        }
        assert(self@.subrange(0, self@.len() as int) == self@);
        Some(out)
    }
}


/// The second component of `addr` (the transport, as in `/ip4/../tcp/..`), if any.
pub fn get_transport_protocol(addr: &Addr) -> (r: Option<AddrPart>)
    ensures
        addr@.len() > 1 ==> (r matches Some(p) && p@ == addr@[1]),
        addr@.len() <= 1 ==> r is None,
{
    if addr.parts.len() > 1 {
        Some(addr.parts[1].duplicate())
    } else {
        None
    }
}

/// The peer of the first `/p2p` component of `addr`, if any.
pub fn extract_peer_id(addr: Addr) -> (r: Option<PeerId>)
    ensures
        r matches Some(p) ==> first_peer(addr@) == Some(p@),
        r is None ==> first_peer(addr@) is None,
{
    let mut i: usize = 0;
    assert(addr@.subrange(0, addr@.len() as int) == addr@);
    while i < addr.parts.len()
        invariant
            i <= addr.parts.len(),
            first_peer(addr@.subrange(i as int, addr@.len() as int)) == first_peer(addr@),
        decreases addr.parts.len() - i,
    {
        let ghost rest = addr@.subrange(i as int, addr@.len() as int);
        assert(rest[0] == addr@[i as int]);
        assert(rest.drop_first() == addr@.subrange(i + 1, addr@.len() as int));
        if let AddrPart::P2p(p) = &addr.parts[i] {
            return Some(p.duplicate());
        }
        i = i + 1;
    }
    assert(addr@.subrange(i as int, addr@.len() as int).len() == 0);
    None
}

/// The address that reaches `my_peer` through the relay at `relay_addr`:
/// `relay_addr` followed by `/p2p-circuit/p2p/<my_peer>`.
pub fn construct_relayed_addr(relay_addr: &Addr, my_peer: &PeerId) -> (r: Addr)
    ensures
        r@ == relay_addr@.push(PartView::P2pCircuit).push(PartView::P2p(my_peer@)),
{
    let mut addr = relay_addr.duplicate();
    addr.push(AddrPart::P2pCircuit);
    addr.push(AddrPart::P2p(my_peer.duplicate()));
    addr
}

/// Whether some address in `relay_addrs` ends with `/p2p/<peer_id>`, that
/// is, whether `peer_id` is one of the relays.
pub fn is_relay_server(relay_addrs: &Vec<Addr>, peer_id: &PeerId) -> (r: bool)
    ensures
        r == exists|i: int| 0 <= i < relay_addrs@.len() && ends_with_peer(#[trigger] relay_addrs@[i]@, peer_id@),
{
    let mut i: usize = 0;
    while i < relay_addrs.len()
        invariant
            i <= relay_addrs.len(),
            forall|j: int| 0 <= j < i ==> !ends_with_peer(#[trigger] relay_addrs@[j]@, peer_id@),
        decreases relay_addrs.len() - i,
    {
        let addr = &relay_addrs[i];
        let n = addr.parts.len();
        if n > 0 {
            if let AddrPart::P2p(p) = &addr.parts[n - 1] {
                if p.same_as(peer_id) {
                    assert(ends_with_peer(relay_addrs@[i as int]@, peer_id@));
                    return true;
                }
            }
        }
        assert(!ends_with_peer(relay_addrs@[i as int]@, peer_id@));
        i = i + 1;
    }
    false
}

/// Whether `addr` already names a peer with a `/p2p` component.
pub fn has_peer_component(addr: &Addr) -> (r: bool)
    ensures
        r == has_peer_part(addr@),
{
    let mut i: usize = 0;
    while i < addr.parts.len()
        invariant
            i <= addr.parts.len(),
            forall|j: int| 0 <= j < i ==> !(addr@[j] is P2p),
        decreases addr.parts.len() - i,
    {
        if let AddrPart::P2p(_) = &addr.parts[i] {
            assert(addr@[i as int] is P2p);
            return true;
        }
        i = i + 1;
    }
    false
}

/// `addr` made to name `peer`: unchanged when it has a `/p2p` component,
/// else with `/p2p/<peer>` appended.
pub open spec fn normalized(addr: Seq<PartView>, peer: Seq<u8>) -> Seq<PartView> {
    if has_peer_part(addr) {
        addr
    } else {
        addr.push(PartView::P2p(peer))
    }
}

/// Normalizing is idempotent: an address made to name a peer already names one.
pub proof fn lemma_normalized_idempotent(addr: Seq<PartView>, peer: Seq<u8>)
    ensures
        has_peer_part(normalized(addr, peer)),
        normalized(normalized(addr, peer), peer) == normalized(addr, peer),
{
    if !has_peer_part(addr) {
        let n = addr.push(PartView::P2p(peer));
        assert(n[addr.len() as int] is P2p);
    }
}

/// Normalizing leaves alone every address that has a `/p2p` component,
/// wherever it stands (first, in the middle before a `/p2p-circuit`, or
/// last); only an address with no `/p2p` component at all gets
/// `/p2p/<peer>` appended.
pub proof fn lemma_normalized_keeps_named(addr: Seq<PartView>, peer: Seq<u8>)
    ensures
        forall|i: int| 0 <= i < addr.len() && #[trigger] addr[i] is P2p ==> normalized(addr, peer) == addr,
        (forall|i: int| 0 <= i < addr.len() ==> !(#[trigger] addr[i] is P2p)) ==> normalized(addr, peer) == addr.push(
            PartView::P2p(peer),
        ),
{
    assert forall|i: int| 0 <= i < addr.len() && #[trigger] addr[i] is P2p implies normalized(addr, peer) == addr by {
        assert(has_peer_part(addr));
    }
}

/// A relayed address names the local peer last, so it is recognized as an
/// address of that peer (and of no other).
pub proof fn lemma_relayed_addr_names_peer(relay: Seq<PartView>, me: Seq<u8>, other: Seq<u8>)
    ensures
        ends_with_peer(relay.push(PartView::P2pCircuit).push(PartView::P2p(me)), me),
        other != me ==> !ends_with_peer(relay.push(PartView::P2pCircuit).push(PartView::P2p(me)), other),
{
}

/// Makes `addr` name `peer`: an address without a `/p2p` component gets
/// `/p2p/<peer>` appended; one that has such a component is kept as is.
pub fn normalize_addr(addr: &mut Addr, peer: &PeerId)
    ensures
        final(addr)@ == normalized(old(addr)@, peer@),
{
    if has_peer_component(addr) {
        return;
    }
    addr.push(AddrPart::P2p(peer.duplicate()));
}

} // verus!
