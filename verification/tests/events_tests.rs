use lattica::addr::{Addr, PeerId};
use lattica::config::Config;
use lattica::events::{
    discovered_peers, handle_identify, p2p_circuit_topic, read_circuit_announcement, relay_circuit_addrs,
    CircuitAnnouncement, IdentifyDecision,
};
use lattica::peers::{AddressBook, AddressSource, IdentifyInfo};

fn fresh_peer() -> (libp2p::PeerId, PeerId) {
    let id = libp2p::identity::Keypair::generate_ed25519().public().to_peer_id();
    (id, PeerId::from_bytes(id.to_bytes()))
}

fn config() -> Config {
    let key = libp2p::identity::Keypair::generate_ed25519();
    Config::for_keypair(key.to_protobuf_encoding().unwrap(), "/tmp").unwrap()
}

fn info(version: &str) -> IdentifyInfo {
    IdentifyInfo {
        protocol_version: version.to_string(),
        agent_version: "a".to_string(),
        protocols: vec![],
        listen_addrs: vec![Addr::parse("/ip4/1.2.3.4/tcp/7").unwrap()],
    }
}

#[test]
fn identify_accepts_matching_version() {
    let c = config();
    let (_, peer) = fresh_peer();
    let mut book = AddressBook::new();
    let (d, addrs) = handle_identify(&c, &mut book, &peer, &info("/lattica/1.0.0"), true);
    assert_eq!(d, IdentifyDecision::Accept);
    assert_eq!(addrs.len(), 1);
    assert_eq!(book.info(&peer).unwrap().protocol_version.as_deref(), Some("/lattica/1.0.0"));
    let (_, none) = handle_identify(&c, &mut book, &peer, &info("/lattica/1.0.0"), false);
    assert!(none.is_empty());
}

#[test]
fn identify_disconnects_on_version_mismatch() {
    let c = config();
    let (_, peer) = fresh_peer();
    let mut book = AddressBook::new();
    book.add_address(&peer, Addr::parse("/ip4/1.2.3.4/tcp/7").unwrap(), AddressSource::Dial, false, 0);
    let (d, addrs) = handle_identify(&c, &mut book, &peer, &info("/other/2.0"), true);
    assert_eq!(d, IdentifyDecision::Disconnect);
    assert!(addrs.is_empty());
    assert!(book.info(&peer).is_none());
}

#[test]
fn identify_ignores_relays_and_bootstrap_nodes() {
    let mut c = config();
    let (relay_id, relay) = fresh_peer();
    let (boot_id, boot) = fresh_peer();
    c.relay_servers.push(Addr::parse(&format!("/ip4/5.5.5.5/tcp/1/p2p/{}", relay_id)).unwrap());
    c.bootstrap_nodes.push(Addr::parse(&format!("/ip4/6.6.6.6/tcp/1/p2p/{}", boot_id)).unwrap());
    let mut book = AddressBook::new();
    assert_eq!(handle_identify(&c, &mut book, &relay, &info("/other"), true).0, IdentifyDecision::Ignore);
    assert_eq!(handle_identify(&c, &mut book, &boot, &info("/other"), true).0, IdentifyDecision::Ignore);
    assert!(book.peers().is_empty());
}

#[test]
fn relay_reservation_yields_circuit_addresses() {
    let (relay_id, relay) = fresh_peer();
    let (me_id, me) = fresh_peer();
    let servers = vec![
        Addr::parse(&format!("/ip4/5.5.5.5/tcp/1/p2p/{}", relay_id)).unwrap(),
        Addr::parse("/ip4/7.7.7.7/tcp/1").unwrap(),
        Addr::parse(&format!("/ip4/5.5.5.5/udp/1/quic-v1/p2p/{}", relay_id)).unwrap(),
    ];
    let out = relay_circuit_addrs(&servers, &relay, &me);
    assert_eq!(out.len(), 2);
    assert_eq!(out[0].to_string().unwrap(), format!("/ip4/5.5.5.5/tcp/1/p2p/{}/p2p-circuit/p2p/{}", relay_id, me_id));
    let (_, other) = fresh_peer();
    assert!(relay_circuit_addrs(&servers, &other, &me).is_empty());
}

#[test]
fn circuit_announcements() {
    let (id, peer) = fresh_peer();
    assert_eq!(p2p_circuit_topic(), "p2p-circuit-broadcast");
    let text = format!("/ip4/1.2.3.4/tcp/1/p2p-circuit/p2p/{}", id);
    match read_circuit_announcement("p2p-circuit-broadcast", text.as_bytes(), Some(peer.clone())) {
        CircuitAnnouncement::Address { peer: p, addr } => {
            assert!(p.same_as(&peer));
            assert_eq!(addr.to_string().unwrap(), text);
        }
        other => panic!("unexpected {:?}", other),
    }
    assert!(matches!(read_circuit_announcement("chat", text.as_bytes(), Some(peer.clone())), CircuitAnnouncement::OtherTopic));
    assert!(matches!(read_circuit_announcement("p2p-circuit-broadcast", &[0xff, 0xfe], Some(peer.clone())), CircuitAnnouncement::NotText));
    assert!(matches!(read_circuit_announcement("p2p-circuit-broadcast", text.as_bytes(), None), CircuitAnnouncement::NoSource));
    assert!(matches!(read_circuit_announcement("p2p-circuit-broadcast", b"hello", Some(peer)), CircuitAnnouncement::NotAnAddress(t) if t == "hello"));
}

#[test]
fn rendezvous_discoveries() {
    assert!(discovered_peers(vec![]).is_none());
    let (_, p) = fresh_peer();
    let found = discovered_peers(vec![(p.clone(), vec![Addr::parse("/ip4/1.1.1.1/tcp/1").unwrap()])]).unwrap();
    assert_eq!(found.len(), 1);
    assert!(found[0].0.same_as(&p));
}
