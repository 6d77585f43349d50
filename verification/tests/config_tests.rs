use lattica::addr::Addr;
use lattica::compression::{CompressionAlgorithm, CompressionLevel};
use lattica::config::Config;

#[test]
fn defaults_for_a_generated_key() {
    let key = libp2p::identity::Keypair::generate_ed25519();
    let peer = key.public().to_peer_id();
    let encoded = key.to_protobuf_encoding().unwrap();
    let c = Config::for_keypair(encoded.clone(), "/tmp").unwrap();
    assert_eq!(c.keypair, encoded);
    assert_eq!(c.protocol_version, "/lattica/1.0.0");
    assert_eq!(c.idle_timeout_secs, 60);
    assert!(c.with_kad && c.with_mdns && c.with_upnp);
    assert!(!c.with_rendezvous && !c.with_autonat && !c.with_dcutr && !c.with_relay);
    assert!(c.bootstrap_nodes.is_empty() && c.external_addrs.is_empty() && c.relay_servers.is_empty());
    assert!(c.rendezvous_servers.is_empty());
    assert_eq!(c.storage_path, format!("/tmp/db_{}", peer));
    assert_eq!(c.dht_db_path, format!("/tmp/dht_{}", peer));
    assert_eq!(c.compression_algorithm, CompressionAlgorithm::NoCompression);
    assert_eq!(c.compression_level, CompressionLevel::Default);
}

#[test]
fn default_listen_addresses_parse_the_same() {
    let key = libp2p::identity::Keypair::generate_ed25519();
    let c = Config::for_keypair(key.to_protobuf_encoding().unwrap(), "/tmp/").unwrap();
    assert_eq!(c.listen_addrs.len(), 2);
    assert!(c.listen_addrs[0].same_as(&Addr::parse("/ip4/0.0.0.0/tcp/0").unwrap()));
    assert!(c.listen_addrs[1].same_as(&Addr::parse("/ip4/0.0.0.0/udp/0/quic-v1").unwrap()));
    assert!(c.storage_path.starts_with("/tmp/db_"));
}

#[test]
fn undecodable_key_gives_no_config() {
    assert!(Config::for_keypair(vec![1, 2, 3], "/tmp").is_none());
}
