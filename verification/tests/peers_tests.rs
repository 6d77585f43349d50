use lattica::addr::{Addr, AddrPart, PeerId};
use lattica::peers::{has_direct_connection, AddressBook, AddressSource, IdentifyInfo, PeerInfo};

fn fresh_peer() -> (libp2p::PeerId, PeerId) {
    let id = libp2p::identity::Keypair::generate_ed25519().public().to_peer_id();
    (id, PeerId::from_bytes(id.to_bytes()))
}

#[test]
fn add_address_creates_record_and_normalizes() {
    let (id, peer) = fresh_peer();
    let mut book = AddressBook::new();
    assert!(book.info(&peer).is_none());
    book.add_address(&peer, Addr::parse("/ip4/1.2.3.4/tcp/4001").unwrap(), AddressSource::Dial, false, 7);
    let info = book.info(&peer).unwrap();
    assert_eq!(info.addresses().len(), 1);
    let entry = &info.addresses()[0];
    assert_eq!(entry.addr.to_string().unwrap(), format!("/ip4/1.2.3.4/tcp/4001/p2p/{}", id));
    assert_eq!(entry.source, AddressSource::Dial);
    assert_eq!(entry.connection_id, 7);
    assert!(!entry.relayed);
}

#[test]
fn same_address_is_updated_not_duplicated() {
    let (_, peer) = fresh_peer();
    let mut book = AddressBook::new();
    let a = Addr::parse("/ip4/1.2.3.4/tcp/4001").unwrap();
    book.add_address(&peer, a.clone(), AddressSource::Dial, false, 1);
    book.add_address(&peer, a.clone(), AddressSource::Identify, true, 2);
    book.add_address(&peer, Addr::parse("/ip4/5.6.7.8/tcp/1").unwrap(), AddressSource::Mdns, false, 3);
    let info = book.info(&peer).unwrap();
    assert_eq!(info.addresses().len(), 2);
    assert_eq!(info.addresses()[0].source, AddressSource::Identify);
    assert!(info.addresses()[0].relayed);
    assert_eq!(info.addresses()[0].connection_id, 2);
    assert_eq!(book.get_peer_addresses(&peer).len(), 2);
}

#[test]
fn peers_lists_each_peer_once() {
    let (_, p1) = fresh_peer();
    let (_, p2) = fresh_peer();
    let mut book = AddressBook::new();
    book.add_address(&p1, Addr::parse("/ip4/1.1.1.1/tcp/1").unwrap(), AddressSource::Dial, false, 0);
    book.add_address(&p2, Addr::parse("/ip4/2.2.2.2/tcp/1").unwrap(), AddressSource::Dial, false, 0);
    book.add_address(&p1, Addr::parse("/ip4/3.3.3.3/tcp/1").unwrap(), AddressSource::Dial, false, 0);
    let peers = book.peers();
    assert_eq!(peers.len(), 2);
    assert!(peers.iter().any(|p| p.same_as(&p1)));
    assert!(peers.iter().any(|p| p.same_as(&p2)));
}

#[test]
fn set_info_records_identify_announcement() {
    let (_, peer) = fresh_peer();
    let mut book = AddressBook::new();
    let identify = IdentifyInfo {
        protocol_version: "/lattica/1.0.0".to_string(),
        agent_version: "agent/1".to_string(),
        protocols: vec!["/ipfs/kad/1.0.0".to_string()],
        listen_addrs: vec![Addr::parse("/ip4/1.2.3.4/tcp/9").unwrap()],
    };
    book.set_info(&peer, &identify);
    let info = book.info(&peer).unwrap();
    assert_eq!(info.protocol_version.as_deref(), Some("/lattica/1.0.0"));
    assert_eq!(info.agent_version.as_deref(), Some("agent/1"));
    assert_eq!(info.protocols, vec!["/ipfs/kad/1.0.0".to_string()]);
    assert_eq!(info.listeners.len(), 1);
    assert!(info.addresses().is_empty());
}

#[test]
fn last_seen_and_rtt_only_for_known_peers() {
    let (_, peer) = fresh_peer();
    let mut book = AddressBook::new();
    book.set_last_seen(&peer, 0, 0);
    book.set_rtt(&peer, Some(5));
    assert!(book.info(&peer).is_none());
    book.add_address(&peer, Addr::parse("/ip4/1.2.3.4/tcp/1").unwrap(), AddressSource::Dial, false, 0);
    book.set_last_seen(&peer, 0, 0);
    book.set_rtt(&peer, Some(1_500_000));
    let info = book.info(&peer).unwrap();
    assert_eq!(info.last_seen.as_deref(), Some("1970-01-01 00:00:00 UTC"));
    assert_eq!(info.rtt_nanos, Some(1_500_000));
    book.set_last_seen(&peer, i64::MAX, 0);
    assert_eq!(book.info(&peer).unwrap().last_seen.as_deref(), Some("1970-01-01 00:00:00 UTC"));
}

#[test]
fn remove_peer_forgets_it() {
    let (_, peer) = fresh_peer();
    let mut book = AddressBook::new();
    book.add_address(&peer, Addr::parse("/ip4/1.2.3.4/tcp/1").unwrap(), AddressSource::Dial, false, 0);
    book.remove_peer(&peer);
    assert!(book.info(&peer).is_none());
    assert!(book.peers().is_empty());
    assert!(book.get_peer_addresses(&peer).is_empty());
    book.remove_peer(&peer);
}

#[test]
fn direct_connection_needs_an_unrelayed_address() {
    let (_, peer) = fresh_peer();
    let mut book = AddressBook::new();
    assert!(!has_direct_connection(&book, &peer));
    let mut circuit = Addr::parse("/ip4/1.2.3.4/tcp/1").unwrap();
    circuit.push(AddrPart::P2pCircuit);
    book.add_address(&peer, circuit, AddressSource::Relay, true, 0);
    assert!(!has_direct_connection(&book, &peer));
    book.add_address(&peer, Addr::parse("/ip4/5.6.7.8/tcp/1").unwrap(), AddressSource::Dial, false, 0);
    assert!(has_direct_connection(&book, &peer));
}

#[test]
fn default_peer_info_is_empty() {
    let info = PeerInfo::default();
    assert!(info.protocol_version.is_none() && info.agent_version.is_none() && info.last_seen.is_none());
    assert!(info.protocols.is_empty() && info.listeners.is_empty() && info.addresses().is_empty());
}
