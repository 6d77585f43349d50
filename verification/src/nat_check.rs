//! Detecting a symmetric NAT: the node asks two STUN servers which public
//! address they see it from. Behind a symmetric NAT the two answers differ
//! in port; when the first answer is the node's own address there is no NAT.
//! A detection that failed is tried again later, a few times, with growing
//! pauses.

use bytecodec::{DecodeExt, EncodeExt};
use libp2p::multiaddr::Protocol;
use libp2p::Multiaddr;
use stun_codec::rfc5389::attributes::{MappedAddress, XorMappedAddress};
use stun_codec::rfc5389::methods::BINDING;
use stun_codec::rfc5389::Attribute;
use stun_codec::{Message, MessageClass, MessageDecoder, MessageEncoder, TransactionId};
use vstd::prelude::*;

verus! {

/// A UDP socket address, with the fields std compares.
#[derive(Debug, Clone, Copy, PartialEq, Eq, Structural)]
pub enum SockAddr {
    V4 { ipv4: u32, port: u16 },
    V6 { ipv6: u128, port: u16, flowinfo: u32, scope_id: u32 },
}

impl SockAddr {
    /// The port.
    pub open spec fn port_of(self) -> u16 {
        match self {
            SockAddr::V4 { port, .. } => port,
            SockAddr::V6 { port, .. } => port,
        }
    }

    /// The port.
    pub fn port(&self) -> (r: u16)
        ensures
            r == self.port_of(),
    {
        match self {
            SockAddr::V4 { port, .. } => *port,
            SockAddr::V6 { port, .. } => *port,
        }
    }
}

/// The STUN binding request the `stun_codec` encoder produces for a
/// transaction id (`None` when encoding fails).
pub uninterp spec fn stun_binding_request(transaction_id: Seq<u8>) -> Option<Seq<u8>>;

/// The XOR-MAPPED-ADDRESS and MAPPED-ADDRESS attributes the `stun_codec`
/// decoder finds in a STUN message (`None` when the bytes are no message).
pub uninterp spec fn stun_mapped_addresses(message: Seq<u8>) -> Option<(Option<SockAddr>, Option<SockAddr>)>;

/// The value of optional bytes.
pub open spec fn opt_bytes_view(r: &Option<Vec<u8>>) -> Option<Seq<u8>> {
    match r {
        Some(v) => Some(v@),
        None => None,
    }
}

/// Encodes a STUN binding request with `MessageEncoder::encode_into_bytes`.
/// The contract claims only that the outcome is a function of the id.
#[verifier::external_body]
fn encode_binding_request(transaction_id: [u8; 12]) -> (r: Option<Vec<u8>>)
    ensures
        opt_bytes_view(&r) == stun_binding_request(transaction_id@),
{
    let message = Message::<Attribute>::new(MessageClass::Request, BINDING, TransactionId::new(transaction_id));
    MessageEncoder::new().encode_into_bytes(message).ok()
}

/// Decodes a STUN message with `MessageDecoder::decode_from_bytes` and
/// reads its two address attributes (the decoder builds IPv6 addresses with
/// zero flow info and scope). The contract claims only that the outcome is
/// a function of the bytes.
#[verifier::external_body]
fn decode_mapped_addresses(message: &[u8]) -> (r: Option<(Option<SockAddr>, Option<SockAddr>)>)
    ensures
        r == stun_mapped_addresses(message@),
{
    let msg = MessageDecoder::<Attribute>::new().decode_from_bytes(message).ok()?.ok()?;
    let [xor, mapped] = [msg.get_attribute::<XorMappedAddress>().map(|x| x.address()), msg.get_attribute::<MappedAddress>().map(|x| x.address())].map(|a| {
        match Multiaddr::from(a?.ip()).iter().next()? {
            Protocol::Ip4(v4) => Some(SockAddr::V4 { ipv4: v4.into(), port: a?.port() }),
            Protocol::Ip6(v6) => Some(SockAddr::V6 { ipv6: v6.into(), port: a?.port(), flowinfo: 0, scope_id: 0 }),
            _ => None,
        }
    });
    Some((xor, mapped))
}

/// The STUN binding request to send, for a transaction id.
pub fn binding_request(transaction_id: [u8; 12]) -> (r: Option<Vec<u8>>)
    ensures
        opt_bytes_view(&r) == stun_binding_request(transaction_id@),
{
    encode_binding_request(transaction_id)
}

/// The address a STUN server reports from its decoded attributes: the
/// XOR-mapped address when present, else the mapped address.
pub open spec fn reported_address(attrs: Option<(Option<SockAddr>, Option<SockAddr>)>) -> Option<SockAddr> {
    match attrs {
        Some((Some(x), _)) => Some(x),
        Some((None, m)) => m,
        None => None,
    }
}

/// The public address a STUN response reports for the node, if any.
pub fn mapped_address_of(response: &[u8]) -> (r: Option<SockAddr>)
    ensures
        r == reported_address(stun_mapped_addresses(response@)),
{
    let attrs = decode_mapped_addresses(response);
    match attrs {
        Some((Some(x), _)) => Some(x),
        Some((None, m)) => m,
        None => None,
    }
}

/// Whether the node sits behind a symmetric NAT, given its own address and
/// the addresses two servers saw: not when the first server saw the node's
/// own address, else exactly when the two ports differ.
pub open spec fn symmetric_verdict(local: SockAddr, first: SockAddr, second: SockAddr) -> bool {
    if local == first {
        false
    } else {
        first.port_of() != second.port_of()
    }
}

/// Decides whether the NAT is symmetric (see `symmetric_verdict`).
pub fn nat_is_symmetric(local: &SockAddr, first: &SockAddr, second: &SockAddr) -> (r: bool)
    ensures
        r == symmetric_verdict(*local, *first, *second),
{
    if *local == *first {
        return false;
    }
    first.port() != second.port()
}

/// The verdict reads only the two answers' ports once the node is seen
/// behind an address other than its own: the NAT is symmetric exactly when
/// the ports differ, whichever answer carries the larger one; a node seen
/// at its own address is never behind a symmetric NAT.
pub proof fn lemma_symmetric_verdict_ports(local: SockAddr, first: SockAddr, second: SockAddr)
    ensures
        local == first ==> !symmetric_verdict(local, first, second),
        local != first ==> (symmetric_verdict(local, first, second) <==> first.port_of() != second.port_of()),
        local != first && local != second ==> symmetric_verdict(local, first, second) == symmetric_verdict(local, second, first),
        local != first && first.port_of() == second.port_of() ==> !symmetric_verdict(local, first, second),
{
}

/// Where a NAT probe stands.
#[derive(Debug, Clone, Copy, PartialEq, Eq, Structural)]
pub enum NatProbe {
    AwaitFirst,
    AwaitSecond { first: SockAddr },
    AwaitLocal { first: SockAddr, second: SockAddr },
    Done,
}

/// What the driver of a NAT probe learned.
#[derive(Debug, Clone, Copy, PartialEq, Eq, Structural)]
pub enum ProbeEvent {
    /// The address a STUN server saw, or `None` when asking it failed.
    Mapped(Option<SockAddr>),
    /// The local address of the probing socket, or `None` when unknown.
    LocalAddress(Option<SockAddr>),
}

/// What the driver of a NAT probe does next.
#[derive(Debug, Clone, Copy, PartialEq, Eq, Structural)]
pub enum ProbeAction {
    /// Ask the STUN server with this index.
    QueryServer(usize),
    /// Read the local address of the probing socket.
    ReadLocalAddress,
    /// Stop with a verdict (`None` when the probe failed).
    Finish(Option<bool>),
}

/// The next state and action of a NAT probe after an event.
pub open spec fn probe_step(s: NatProbe, e: ProbeEvent) -> (NatProbe, ProbeAction) {
    match (s, e) {
        (NatProbe::AwaitFirst, ProbeEvent::Mapped(Some(a))) => (NatProbe::AwaitSecond { first: a }, ProbeAction::QueryServer(1)),
        (NatProbe::AwaitSecond { first }, ProbeEvent::Mapped(Some(b))) => (
            NatProbe::AwaitLocal { first, second: b },
            ProbeAction::ReadLocalAddress,
        ),
        (NatProbe::AwaitLocal { first, second }, ProbeEvent::LocalAddress(Some(l))) => (
            NatProbe::Done,
            ProbeAction::Finish(Some(symmetric_verdict(l, first, second))),
        ),
        _ => (NatProbe::Done, ProbeAction::Finish(None)),
    }
}

impl NatProbe {
    /// A fresh probe: ask the first server.
    pub fn start() -> (r: (NatProbe, ProbeAction))
        ensures
            r == (NatProbe::AwaitFirst, ProbeAction::QueryServer(0)),
    {
        (NatProbe::AwaitFirst, ProbeAction::QueryServer(0))
    }

    /// Takes in an event: a failure ends the probe without a verdict; the
    /// two server answers and the local address lead to the verdict.
    pub fn step(self, event: ProbeEvent) -> (r: (NatProbe, ProbeAction))
        ensures
            r == probe_step(self, event),
    {
        match (self, event) {
            (NatProbe::AwaitFirst, ProbeEvent::Mapped(Some(a))) => (NatProbe::AwaitSecond { first: a }, ProbeAction::QueryServer(1)),
            (NatProbe::AwaitSecond { first }, ProbeEvent::Mapped(Some(b))) => (
                NatProbe::AwaitLocal { first, second: b },
                ProbeAction::ReadLocalAddress,
            ),
            (NatProbe::AwaitLocal { first, second }, ProbeEvent::LocalAddress(Some(l))) => (
                NatProbe::Done,
                ProbeAction::Finish(Some(nat_is_symmetric(&l, &first, &second))),
            ),
            _ => (NatProbe::Done, ProbeAction::Finish(None)),
        }
    }
}

/// A probe that hears both servers and its local address ends with the
/// verdict on those addresses; a failure at any point ends it without one.
pub proof fn lemma_probe_run(first: Option<SockAddr>, second: Option<SockAddr>, local: Option<SockAddr>)
    ensures
        ({
            let (s1, a1) = probe_step(NatProbe::AwaitFirst, ProbeEvent::Mapped(first));
            first is None ==> a1 == ProbeAction::Finish(None)
        }),
        ({
            let (s1, a1) = probe_step(NatProbe::AwaitFirst, ProbeEvent::Mapped(first));
            let (s2, a2) = probe_step(s1, ProbeEvent::Mapped(second));
            first is Some && second is None ==> a2 == ProbeAction::Finish(None)
        }),
        ({
            let (s1, a1) = probe_step(NatProbe::AwaitFirst, ProbeEvent::Mapped(first));
            let (s2, a2) = probe_step(s1, ProbeEvent::Mapped(second));
            let (s3, a3) = probe_step(s2, ProbeEvent::LocalAddress(local));
            &&& first is Some && second is Some ==> a2 == ProbeAction::ReadLocalAddress
            &&& first is Some && second is Some && local is Some ==> a3 == ProbeAction::Finish(
                Some(symmetric_verdict(local->0, first->0, second->0)),
            )
            &&& first is Some && second is Some && local is None ==> a3 == ProbeAction::Finish(None)
        }),
{
}

/// The number of times the detection is tried.
pub const NAT_CHECK_ATTEMPTS: u32 = 5;

/// The pause, in seconds, after the first failed attempt.
pub const NAT_CHECK_FIRST_DELAY_SECS: u64 = 2;

/// What to do after an attempt at NAT detection.
#[derive(Debug, Clone, Copy, PartialEq, Eq, Structural)]
pub enum RetryAction {
    /// Record the verdict; detection is over.
    Record(bool),
    /// Pause this many seconds, then try again.
    Wait(u64),
    /// Stop trying.
    GiveUp,
}

/// The schedule of detection attempts.
pub struct NatRetry {
    pub attempt: u32,
    pub delay_secs: u64,
}

/// The pause after the `k`-th failed attempt (counting from 1).
pub open spec fn nat_delay(k: nat) -> nat
    decreases k,
{
    if k <= 1 {
        NAT_CHECK_FIRST_DELAY_SECS as nat
    } else {
        2 * nat_delay((k - 1) as nat)
    }
}

impl NatRetry {
    /// The schedule's invariant: attempts counted from 1 up to the limit,
    /// and the pause doubles from 2 seconds.
    pub open spec fn wf(&self) -> bool {
        1 <= self.attempt <= NAT_CHECK_ATTEMPTS && self.delay_secs == nat_delay(self.attempt as nat)
    }

    /// Before the first attempt.
    pub fn new() -> (r: NatRetry)
        ensures
            r.wf(),
            r.attempt == 1,
    {
        NatRetry { attempt: 1, delay_secs: NAT_CHECK_FIRST_DELAY_SECS }
    }

    /// Takes in the outcome of the current attempt: a verdict is recorded;
    /// after a failure the detection pauses and tries again, unless this
    /// was the last attempt.
    pub fn on_attempt(&mut self, verdict: Option<bool>) -> (r: RetryAction)
        requires
            old(self).wf(),
        ensures
            verdict matches Some(v) ==> r == RetryAction::Record(v) && *final(self) == *old(self),
            verdict is None && old(self).attempt < NAT_CHECK_ATTEMPTS ==> r == RetryAction::Wait(old(self).delay_secs)
                && final(self).attempt == old(self).attempt + 1 && final(self).wf(),
            verdict is None && old(self).attempt == NAT_CHECK_ATTEMPTS ==> r == RetryAction::GiveUp && *final(self) == *old(self),
    {
        match verdict {
            Some(v) => RetryAction::Record(v),
            None => {
                if self.attempt < NAT_CHECK_ATTEMPTS {
                    let wait = self.delay_secs;
                    proof {
                        assert(nat_delay(1) == 2);
                        assert(nat_delay(2) == 4);
                        assert(nat_delay(3) == 8);
                        assert(nat_delay(4) == 16);
                        assert(nat_delay(5) == 32);
                    }
                    self.attempt = self.attempt + 1;
                    self.delay_secs = self.delay_secs * 2;
                    RetryAction::Wait(wait)
                } else {
                    RetryAction::GiveUp
                }
            },
        }
    }
}

} // verus!
