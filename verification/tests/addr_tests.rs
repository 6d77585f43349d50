use lattica::addr::{
    construct_relayed_addr, extract_peer_id, get_transport_protocol, is_relay_server, normalize_addr,
    Addr, AddrPart, PeerId,
};

fn fresh_peer() -> (libp2p::PeerId, PeerId) {
    let id = libp2p::identity::Keypair::generate_ed25519().public().to_peer_id();
    (id, PeerId::from_bytes(id.to_bytes()))
}

fn parts_text(a: &Addr) -> Vec<String> {
    a.parts
        .iter()
        .map(|p| match p {
            AddrPart::P2p(id) => format!("p2p:{:?}", id.bytes),
            AddrPart::P2pCircuit => "circuit".to_string(),
            AddrPart::Other(t) => t.clone(),
        })
        .collect()
}

#[test]
fn parse_reads_components() {
    let a = Addr::parse("/ip4/127.0.0.1/tcp/80").unwrap();
    assert_eq!(parts_text(&a), vec!["/ip4/127.0.0.1", "/tcp/80"]);
    assert!(Addr::parse("not an address").is_none());
    assert!(Addr::parse("/ip4/999.0.0.1").is_none());
}

#[test]
fn parse_and_render_roundtrip_with_peer() {
    let (id, _) = fresh_peer();
    let text = format!("/ip4/10.0.0.1/udp/9000/quic-v1/p2p/{}", id);
    let a = Addr::parse(&text).unwrap();
    assert_eq!(a.parts.len(), 4);
    match &a.parts[3] {
        AddrPart::P2p(p) => assert_eq!(p.bytes, id.to_bytes()),
        _ => panic!("expected a peer component"),
    }
    assert_eq!(a.to_string().unwrap(), text);
}

#[test]
fn render_fails_for_bytes_that_are_no_peer() {
    let mut a = Addr::parse("/ip4/1.2.3.4/tcp/1").unwrap();
    a.push(AddrPart::P2p(PeerId::from_bytes(vec![1, 2, 3])));
    assert!(a.to_string().is_none());
}

#[test]
fn transport_protocol_is_second_component() {
    let a = Addr::parse("/ip4/127.0.0.1/tcp/80").unwrap();
    match get_transport_protocol(&a) {
        Some(AddrPart::Other(t)) => assert_eq!(t, "/tcp/80"),
        other => panic!("unexpected {:?}", other),
    }
    let one = Addr::parse("/ip4/127.0.0.1").unwrap();
    assert!(get_transport_protocol(&one).is_none());
}

#[test]
fn extract_peer_id_finds_first_peer() {
    let (id, peer) = fresh_peer();
    let a = Addr::parse(&format!("/ip4/1.1.1.1/tcp/4001/p2p/{}", id)).unwrap();
    let got = extract_peer_id(a).unwrap();
    assert!(got.same_as(&peer));
    assert!(extract_peer_id(Addr::parse("/ip4/1.1.1.1/tcp/4001").unwrap()).is_none());
}

#[test]
fn relayed_address_matches_libp2p_rendering() {
    let (relay_id, _) = fresh_peer();
    let (me_id, me) = fresh_peer();
    let relay_text = format!("/ip4/5.6.7.8/tcp/4001/p2p/{}", relay_id);
    let relay = Addr::parse(&relay_text).unwrap();
    let relayed = construct_relayed_addr(&relay, &me);
    let expected: libp2p::Multiaddr = relay_text.parse::<libp2p::Multiaddr>().unwrap()
        .with(libp2p::multiaddr::Protocol::P2pCircuit)
        .with(libp2p::multiaddr::Protocol::P2p(me_id));
    assert_eq!(relayed.to_string().unwrap(), expected.to_string());
}

#[test]
fn relay_server_recognized_by_last_component() {
    let (relay_id, relay) = fresh_peer();
    let (_, stranger) = fresh_peer();
    let addrs = vec![
        Addr::parse("/ip4/9.9.9.9/tcp/1").unwrap(),
        Addr::parse(&format!("/ip4/5.6.7.8/tcp/4001/p2p/{}", relay_id)).unwrap(),
    ];
    assert!(is_relay_server(&addrs, &relay));
    assert!(!is_relay_server(&addrs, &stranger));
    assert!(!is_relay_server(&vec![], &relay));
    let mut not_last = Addr::parse(&format!("/ip4/5.6.7.8/tcp/4001/p2p/{}", relay_id)).unwrap();
    not_last.push(AddrPart::P2pCircuit);
    assert!(!is_relay_server(&vec![not_last], &relay));
}

#[test]
fn normalize_appends_peer_once() {
    let (_, peer) = fresh_peer();
    let mut a = Addr::parse("/ip4/1.2.3.4/tcp/5").unwrap();
    normalize_addr(&mut a, &peer);
    assert_eq!(a.parts.len(), 3);
    let before = a.clone();
    normalize_addr(&mut a, &peer);
    assert!(a.same_as(&before));
}
