//! How a node reacts to what its network protocols report: peers that
//! identify themselves, relays that accept a reservation, relay-circuit
//! addresses announced over gossip, and peers found at a rendezvous point.

use vstd::prelude::*;
use crate::addr::{Addr, AddrPart, PartView, PeerId, construct_relayed_addr, ends_with_peer, is_relay_server, multiaddr_parts};
use crate::bytes::{decode_utf8, text_equal, utf8_text};
use crate::config::Config;
use crate::peers::{AddressBook, IdentifyInfo, PeerInfoView, addrs_view, prior_info, strings_view};

verus! {

/// The gossip topic on which nodes announce their relay-circuit addresses.
pub open spec fn circuit_topic() -> Seq<char> {
    "p2p-circuit-broadcast"@
}

/// The gossip topic on which nodes announce their relay-circuit addresses.
pub fn p2p_circuit_topic() -> (r: &'static str)
    ensures
        r@ == circuit_topic(),
{
    "p2p-circuit-broadcast"
}

/// Whether `peer` is one of the relays or bootstrap nodes (the last
/// component of one of their addresses names it).
pub open spec fn is_infrastructure(config: &Config, peer: Seq<u8>) -> bool {
    (exists|i: int| 0 <= i < config.relay_servers@.len() && ends_with_peer(#[trigger] config.relay_servers@[i]@, peer))
        || (exists|i: int| 0 <= i < config.bootstrap_nodes@.len() && ends_with_peer(#[trigger] config.bootstrap_nodes@[i]@, peer))
}

/// What to do with a peer that identified itself.
#[derive(Debug, Clone, Copy, PartialEq, Eq, Structural)]
pub enum IdentifyDecision {
    /// A relay or bootstrap node: nothing to record.
    Ignore,
    /// It speaks another protocol version: forget it and disconnect.
    Disconnect,
    /// Record what it announced and tell the DHT its listen addresses.
    Accept,
}

/// The decision for a peer announcing protocol version `announced`.
pub open spec fn identify_decision_of(config: &Config, peer: Seq<u8>, announced: Seq<char>) -> IdentifyDecision {
    if is_infrastructure(config, peer) {
        IdentifyDecision::Ignore
    } else if config.protocol_version@ != announced {
        IdentifyDecision::Disconnect
    } else {
        IdentifyDecision::Accept
    }
}

/// Takes in what `peer` announced about itself. Returns the decision and
/// the listen addresses to hand to the DHT (only when accepted and the DHT
/// is enabled).
pub fn handle_identify(
    config: &Config,
    address_book: &mut AddressBook,
    peer: &PeerId,
    info: &IdentifyInfo,
    kad_enabled: bool,
) -> (r: (IdentifyDecision, Vec<Addr>))
    ensures
        r.0 == identify_decision_of(config, peer@, info.protocol_version@),
        r.0 == IdentifyDecision::Ignore ==> final(address_book)@ == old(address_book)@ && r.1@.len() == 0,
        r.0 == IdentifyDecision::Disconnect ==> final(address_book)@ == old(address_book)@.remove(peer@) && r.1@.len() == 0,
        r.0 == IdentifyDecision::Accept ==> final(address_book)@ == old(address_book)@.insert(
            peer@,
            PeerInfoView {
                protocol_version: Some(info.protocol_version@),
                agent_version: Some(info.agent_version@),
                protocols: strings_view(info.protocols@),
                listeners: addrs_view(info.listen_addrs@),
                ..prior_info(old(address_book)@, peer@)
            },
        ),
        r.0 == IdentifyDecision::Accept && kad_enabled ==> addrs_view(r.1@) == addrs_view(info.listen_addrs@),
        r.0 == IdentifyDecision::Accept && !kad_enabled ==> r.1@.len() == 0,
{
    if is_relay_server(&config.relay_servers, peer) || is_relay_server(&config.bootstrap_nodes, peer) {
        return (IdentifyDecision::Ignore, Vec::new());
    }
    if config.protocol_version != info.protocol_version {
        address_book.remove_peer(peer);
        return (IdentifyDecision::Disconnect, Vec::new());
    }
    address_book.set_info(peer, info);
    let addrs = if kad_enabled { crate::peers::copy_addrs(&info.listen_addrs) } else { Vec::new() };
    (IdentifyDecision::Accept, addrs)
}

/// The relay-circuit addresses of the local peer through the relay
/// `relay`, one per configured relay address that names it.
pub open spec fn relayed_addrs(servers: Seq<Seq<PartView>>, relay: Seq<u8>, local: Seq<u8>) -> Seq<Seq<PartView>>
    decreases servers.len(),
{
    if servers.len() == 0 {
        Seq::empty()
    } else {
        let rest = relayed_addrs(servers.drop_last(), relay, local);
        if ends_with_peer(servers.last(), relay) {
            rest.push(servers.last().push(PartView::P2pCircuit).push(PartView::P2p(local)))
        } else {
            rest
        }
    }
}

/// Whether `a` is a configured address of the relay `relay` followed by
/// `/p2p-circuit/p2p/<local>`.
pub open spec fn via_configured_relay(servers: Seq<Seq<PartView>>, relay: Seq<u8>, local: Seq<u8>, a: Seq<PartView>) -> bool {
    exists|j: int|
        0 <= j < servers.len() && ends_with_peer(#[trigger] servers[j], relay)
            && a == servers[j].push(PartView::P2pCircuit).push(PartView::P2p(local))
}

/// The circuit addresses are the matching relay addresses, filtered in order.
proof fn lemma_relayed_addrs_filter(servers: Seq<Seq<PartView>>, relay: Seq<u8>, local: Seq<u8>)
    ensures
        relayed_addrs(servers, relay, local) == servers.filter(|s: Seq<PartView>| ends_with_peer(s, relay)).map_values(
            |s: Seq<PartView>| s.push(PartView::P2pCircuit).push(PartView::P2p(local)),
        ),
    decreases servers.len(),
{
    let r = relayed_addrs(servers, relay, local);
    let pred = |s: Seq<PartView>| ends_with_peer(s, relay);
    let ext = |s: Seq<PartView>| s.push(PartView::P2pCircuit).push(PartView::P2p(local));
    reveal(Seq::filter);
    if servers.len() == 0 {
        assert(servers.filter(pred) =~= Seq::<Seq<PartView>>::empty());
        assert(r =~= servers.filter(pred).map_values(ext));
    } else {
        let prev = servers.drop_last();
        lemma_relayed_addrs_filter(prev, relay, local);
        assert(servers.filter(pred) == if pred(servers.last()) {
            prev.filter(pred).push(servers.last())
        } else {
            prev.filter(pred)
        });
        if pred(servers.last()) {
            assert(prev.filter(pred).push(servers.last()).map_values(ext) =~= prev.filter(pred).map_values(ext).push(
                ext(servers.last()),
            ));
        }
        assert(r =~= servers.filter(pred).map_values(ext));
    }
}

/// The circuit addresses through `relay` are, in order and one each, the
/// configured relay addresses that end with `/p2p/<relay>`, each followed by
/// `/p2p-circuit/p2p/<local>`: every result comes from a configured address
/// of that relay, and every such configured address gives a result.
pub proof fn lemma_relayed_addrs_follow_servers(servers: Seq<Seq<PartView>>, relay: Seq<u8>, local: Seq<u8>)
    ensures
        relayed_addrs(servers, relay, local) == servers.filter(|s: Seq<PartView>| ends_with_peer(s, relay)).map_values(
            |s: Seq<PartView>| s.push(PartView::P2pCircuit).push(PartView::P2p(local)),
        ),
        forall|k: int| 0 <= k < relayed_addrs(servers, relay, local).len()
            ==> via_configured_relay(servers, relay, local, #[trigger] relayed_addrs(servers, relay, local)[k]),
        forall|j: int| 0 <= j < servers.len() && ends_with_peer(#[trigger] servers[j], relay)
            ==> relayed_addrs(servers, relay, local).contains(servers[j].push(PartView::P2pCircuit).push(PartView::P2p(local))),
{
    let r = relayed_addrs(servers, relay, local);
    let pred = |s: Seq<PartView>| ends_with_peer(s, relay);
    let ext = |s: Seq<PartView>| s.push(PartView::P2pCircuit).push(PartView::P2p(local));
    let f = servers.filter(pred);
    lemma_relayed_addrs_filter(servers, relay, local);
    assert(r == f.map_values(ext));
    assert forall|k: int| 0 <= k < r.len() implies via_configured_relay(servers, relay, local, #[trigger] r[k]) by {
        servers.lemma_filter_pred(pred, k);
        assert(f.contains(f[k]));
        servers.lemma_filter_contains_rev(pred, f[k]);
        let j = choose|j: int| 0 <= j < servers.len() && servers[j] == f[k];
        assert(pred(servers[j]));
        assert(r[k] == ext(f[k]));
        assert(r[k] == servers[j].push(PartView::P2pCircuit).push(PartView::P2p(local)));
    }
    assert forall|j: int| 0 <= j < servers.len() && ends_with_peer(#[trigger] servers[j], relay)
        implies r.contains(servers[j].push(PartView::P2pCircuit).push(PartView::P2p(local))) by {
        assert(pred(servers[j]));
        servers.lemma_filter_contains(pred, j);
        let k = choose|k: int| 0 <= k < f.len() && f[k] == servers[j];
        assert(r[k] == ext(f[k]));
    }
}

/// Once the relay `relay_peer` accepted a reservation: the addresses by
/// which the local peer is now reachable through it, to be added as
/// external addresses and announced on the circuit topic.
pub fn relay_circuit_addrs(relay_servers: &Vec<Addr>, relay_peer: &PeerId, local: &PeerId) -> (r: Vec<Addr>)
    ensures
        addrs_view(r@) == relayed_addrs(addrs_view(relay_servers@), relay_peer@, local@),
{
    let ghost servers = addrs_view(relay_servers@);
    let mut out: Vec<Addr> = Vec::new();
    let mut i: usize = 0;
    while i < relay_servers.len()
        invariant
            i <= relay_servers.len(),
            servers == addrs_view(relay_servers@),
            addrs_view(out@) == relayed_addrs(servers.subrange(0, i as int), relay_peer@, local@),
        decreases relay_servers.len() - i,
    {
        let ghost prefix = servers.subrange(0, i + 1);
        assert(prefix.drop_last() == servers.subrange(0, i as int));
        assert(prefix.last() == relay_servers@[i as int]@);
        let addr = &relay_servers[i];
        let n = addr.parts.len();
        let mut names_relay = false;
        if n > 0 {
            if let AddrPart::P2p(p) = &addr.parts[n - 1] {
                names_relay = p.same_as(relay_peer);
            }
        }
        assert(names_relay == ends_with_peer(addr@, relay_peer@));
        if names_relay {
            let relayed = construct_relayed_addr(addr, local);
            let ghost rv = relayed@;
            out.push(relayed);
            assert(addrs_view(out@) =~= relayed_addrs(servers.subrange(0, i as int), relay_peer@, local@).push(rv));
        }
        i = i + 1;
    }
    assert(servers.subrange(0, servers.len() as int) == servers);
    out
}

/// What a message on the gossip network announced.
#[derive(Debug)]
pub enum CircuitAnnouncement {
    /// The message is on another topic.
    OtherTopic,
    /// The payload is not UTF-8 text.
    NotText,
    /// The message names no source peer.
    NoSource,
    /// The payload is text but no multiaddress.
    NotAnAddress(String),
    /// The source peer is reachable at this relay-circuit address.
    Address { peer: PeerId, addr: Addr },
}

/// Reads a gossip message: on the circuit topic, a UTF-8 payload from a
/// known source that parses as a multiaddress announces that the source is
/// reachable there.
pub fn read_circuit_announcement(topic: &str, data: &[u8], source: Option<PeerId>) -> (r: CircuitAnnouncement)
    ensures
        topic@ != circuit_topic() ==> r is OtherTopic,
        topic@ == circuit_topic() && utf8_text(data@) is None ==> r is NotText,
        topic@ == circuit_topic() && utf8_text(data@) is Some && source is None ==> r is NoSource,
        topic@ == circuit_topic() && utf8_text(data@) is Some && source is Some ==> match r {
            CircuitAnnouncement::NotAnAddress(t) => Some(t@) == utf8_text(data@) && multiaddr_parts(t@) is None,
            CircuitAnnouncement::Address { peer, addr } => source->0@ == peer@ && multiaddr_parts(utf8_text(data@)->0)
                == Some(addr@),
            _ => false,
        },
{
    if !text_equal(topic, p2p_circuit_topic()) {
        return CircuitAnnouncement::OtherTopic;
    }
    let text = match decode_utf8(data) {
        Some(t) => t,
        None => return CircuitAnnouncement::NotText,
    };
    let peer = match source {
        Some(p) => p,
        None => return CircuitAnnouncement::NoSource,
    };
    match Addr::parse(text.as_str()) {
        Some(addr) => CircuitAnnouncement::Address { peer, addr },
        None => CircuitAnnouncement::NotAnAddress(text),
    }
}

/// The peers a rendezvous point reported, or `None` when it reported none.
pub fn discovered_peers(registrations: Vec<(PeerId, Vec<Addr>)>) -> (r: Option<Vec<(PeerId, Vec<Addr>)>>)
    ensures
        registrations@.len() == 0 ==> r is None,
        registrations@.len() > 0 ==> r == Some(registrations),
{
    if registrations.len() == 0 {
        None
    } else {
        Some(registrations)
    }
}

} // verus!
