//! A node's configuration and its defaults.

use libp2p::identity::Keypair;
use vstd::prelude::*;
use crate::addr::{Addr, AddrPart, PartView, PeerId, peer_id_text};
use crate::compression::{CompressionAlgorithm, CompressionLevel};
use crate::fs_blockstore::{join_path, joined};

verus! {

/// How a node runs.
#[derive(Debug, Clone)]
pub struct Config {
    /// The node's identity key, in libp2p's protobuf encoding.
    pub keypair: Vec<u8>,
    pub protocol_version: String,
    pub idle_timeout_secs: u64,
    pub bootstrap_nodes: Vec<Addr>,
    pub listen_addrs: Vec<Addr>,
    pub external_addrs: Vec<Addr>,
    pub with_kad: bool,
    pub with_rendezvous: bool,
    pub rendezvous_servers: Vec<(PeerId, Addr)>,
    pub with_mdns: bool,
    pub with_upnp: bool,
    pub with_autonat: bool,
    pub with_dcutr: bool,
    pub with_relay: bool,
    pub relay_servers: Vec<Addr>,
    pub storage_path: String,
    pub compression_algorithm: CompressionAlgorithm,
    pub compression_level: CompressionLevel,
    pub dht_db_path: String,
}

/// The peer id (as multihash bytes) of the key whose protobuf encoding is
/// given (`None` when the bytes are no key).
pub uninterp spec fn keypair_peer_id(encoded: Seq<u8>) -> Option<Seq<u8>>;

/// Decodes a key with `Keypair::from_protobuf_encoding` and derives its
/// peer id. The contract claims only that the outcome is a function of the
/// encoding.
#[verifier::external_body]
fn peer_id_of_keypair(encoded: &[u8]) -> (r: Option<Vec<u8>>)
    ensures
        r matches Some(v) ==> keypair_peer_id(encoded@) == Some(v@),
        r is None ==> keypair_peer_id(encoded@) is None,
{
    Keypair::from_protobuf_encoding(encoded).ok().map(|k| k.public().to_peer_id().to_bytes())
}

/// The protocol version nodes of this network announce.
pub open spec fn default_protocol_version() -> Seq<char> {
    "/lattica/1.0.0"@
}

/// The addresses a node listens on by default: any IPv4 interface, on a
/// system-chosen TCP port and a system-chosen QUIC port.
pub open spec fn default_listen_addrs() -> Seq<Seq<PartView>> {
    seq![
        seq![PartView::Other("/ip4/0.0.0.0"@), PartView::Other("/tcp/0"@)],
        seq![PartView::Other("/ip4/0.0.0.0"@), PartView::Other("/udp/0"@), PartView::Other("/quic-v1"@)],
    ]
}

/// The default listen addresses.
fn default_listen_addr_list() -> (r: Vec<Addr>)
    ensures
        r@.len() == 2,
        r@[0]@ == default_listen_addrs()[0],
        r@[1]@ == default_listen_addrs()[1],
{
    let mut tcp = Addr::empty();
    tcp.push(AddrPart::Other(String::from_str("/ip4/0.0.0.0")));
    tcp.push(AddrPart::Other(String::from_str("/tcp/0")));
    let mut quic = Addr::empty();
    quic.push(AddrPart::Other(String::from_str("/ip4/0.0.0.0")));
    quic.push(AddrPart::Other(String::from_str("/udp/0")));
    quic.push(AddrPart::Other(String::from_str("/quic-v1")));
    let mut out: Vec<Addr> = Vec::new();
    out.push(tcp);
    out.push(quic);
    assert(out@[0]@ =~= default_listen_addrs()[0]);
    assert(out@[1]@ =~= default_listen_addrs()[1]);
    out
}

impl Config {
    /// The default configuration of a node with the given identity key:
    /// Kademlia, mDNS and UPnP on, rendezvous, AutoNAT, DCUtR and relaying
    /// off, no compression, a 60 s idle timeout, and its record store and DHT
    /// database in `temp_dir` under `db_<peer id>` and `dht_<peer id>`.
    /// `None` when the key cannot be decoded.
    pub fn for_keypair(keypair: Vec<u8>, temp_dir: &str) -> (r: Option<Config>)
        ensures
            keypair_peer_id(keypair@) is None ==> r is None,
            keypair_peer_id(keypair@) matches Some(id) && peer_id_text(id) is None ==> r is None,
            keypair_peer_id(keypair@) matches Some(id) && peer_id_text(id) is Some ==> r is Some,
            r matches Some(c) ==> ({
                let id = keypair_peer_id(keypair@)->0;
                let text = peer_id_text(id)->0;
                &&& keypair_peer_id(keypair@) is Some
                &&& peer_id_text(id) is Some
                &&& c.keypair@ == keypair@
                &&& c.protocol_version@ == default_protocol_version()
                &&& c.idle_timeout_secs == 60
                &&& c.bootstrap_nodes@.len() == 0
                &&& c.listen_addrs@.map_values(|a: Addr| a@) == default_listen_addrs()
                &&& c.external_addrs@.len() == 0
                &&& c.with_kad
                &&& !c.with_rendezvous
                &&& c.rendezvous_servers@.len() == 0
                &&& c.with_mdns
                &&& c.with_upnp
                &&& !c.with_autonat
                &&& !c.with_dcutr
                &&& !c.with_relay
                &&& c.relay_servers@.len() == 0
                &&& c.storage_path@ == joined(temp_dir@, "db_"@ + text)
                &&& c.compression_algorithm == CompressionAlgorithm::NoCompression
                &&& c.compression_level == CompressionLevel::Default
                &&& c.dht_db_path@ == joined(temp_dir@, "dht_"@ + text)
            }),
    {
        let id = match peer_id_of_keypair(keypair.as_slice()) {
            Some(id) => id,
            None => return None,
        };
        let peer = PeerId::from_bytes(id);
        let text = match peer.base58() {
            Some(t) => t,
            None => return None,
        };
        let mut db_name = String::from_str("db_");
        db_name.append(text.as_str());
        let mut dht_name = String::from_str("dht_");
        dht_name.append(text.as_str());
        let listen_addrs = default_listen_addr_list();
        assert(listen_addrs@.map_values(|a: Addr| a@) =~= default_listen_addrs());
        Some(Config {
            keypair,
            protocol_version: String::from_str("/lattica/1.0.0"),
            idle_timeout_secs: 60,
            bootstrap_nodes: Vec::new(),
            listen_addrs,
            external_addrs: Vec::new(),
            with_kad: true,
            with_rendezvous: false,
            rendezvous_servers: Vec::new(),
            with_mdns: true,
            with_upnp: true,
            with_autonat: false,
            with_dcutr: false,
            with_relay: false,
            relay_servers: Vec::new(),
            storage_path: join_path(temp_dir, db_name.as_str()),
            compression_algorithm: CompressionAlgorithm::NoCompression,
            compression_level: CompressionLevel::Default,
            dht_db_path: join_path(temp_dir, dht_name.as_str()),
        })
    }
}

} // verus!
