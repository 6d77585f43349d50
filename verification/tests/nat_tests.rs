use bytecodec::{DecodeExt, EncodeExt};
use lattica::nat_check::{
    binding_request, mapped_address_of, nat_is_symmetric, NatProbe, NatRetry, ProbeAction, ProbeEvent, RetryAction,
    SockAddr,
};
use stun_codec::rfc5389::attributes::{MappedAddress, XorMappedAddress};
use stun_codec::rfc5389::methods::BINDING;
use stun_codec::rfc5389::Attribute;
use stun_codec::{Message, MessageClass, MessageDecoder, MessageEncoder, TransactionId};

fn response(xor: Option<&str>, mapped: Option<&str>) -> Vec<u8> {
    let mut m = Message::<Attribute>::new(MessageClass::SuccessResponse, BINDING, TransactionId::new([7; 12]));
    if let Some(a) = xor {
        m.add_attribute(XorMappedAddress::new(a.parse().unwrap()));
    }
    if let Some(a) = mapped {
        m.add_attribute(MappedAddress::new(a.parse().unwrap()));
    }
    MessageEncoder::new().encode_into_bytes(m).unwrap()
}

#[test]
fn binding_request_is_a_stun_request() {
    let bytes = binding_request([3; 12]).unwrap();
    assert_eq!(bytes.len(), 20);
    let msg = MessageDecoder::<Attribute>::new().decode_from_bytes(&bytes).unwrap().unwrap();
    assert_eq!(msg.class(), MessageClass::Request);
    assert_eq!(msg.method(), BINDING);
    assert_eq!(msg.transaction_id(), TransactionId::new([3; 12]));
}

#[test]
fn mapped_address_prefers_xor_attribute() {
    let r = response(Some("1.2.3.4:5000"), Some("9.9.9.9:1"));
    assert_eq!(mapped_address_of(&r), Some(SockAddr::V4 { ipv4: 0x01020304, port: 5000 }));
    let r = response(None, Some("9.9.9.9:1"));
    assert_eq!(mapped_address_of(&r), Some(SockAddr::V4 { ipv4: 0x09090909, port: 1 }));
    let r = response(Some("[::1]:80"), None);
    assert_eq!(mapped_address_of(&r), Some(SockAddr::V6 { ipv6: 1, port: 80, flowinfo: 0, scope_id: 0 }));
    assert_eq!(mapped_address_of(&response(None, None)), None);
    assert_eq!(mapped_address_of(&[1, 2, 3]), None);
}

#[test]
fn symmetric_verdicts() {
    let local = SockAddr::V4 { ipv4: 1, port: 10 };
    let a = SockAddr::V4 { ipv4: 2, port: 20 };
    let b = SockAddr::V4 { ipv4: 2, port: 21 };
    assert!(!nat_is_symmetric(&local, &local, &b));
    assert!(nat_is_symmetric(&local, &a, &b));
    assert!(!nat_is_symmetric(&local, &a, &a));
}

#[test]
fn probe_runs_to_a_verdict() {
    let (s, a) = NatProbe::start();
    assert_eq!(a, ProbeAction::QueryServer(0));
    let first = SockAddr::V4 { ipv4: 5, port: 100 };
    let second = SockAddr::V4 { ipv4: 5, port: 101 };
    let (s, a) = s.step(ProbeEvent::Mapped(Some(first)));
    assert_eq!(a, ProbeAction::QueryServer(1));
    let (s, a) = s.step(ProbeEvent::Mapped(Some(second)));
    assert_eq!(a, ProbeAction::ReadLocalAddress);
    let (s, a) = s.step(ProbeEvent::LocalAddress(Some(SockAddr::V4 { ipv4: 9, port: 1 })));
    assert_eq!(a, ProbeAction::Finish(Some(true)));
    assert_eq!(s, NatProbe::Done);
}

#[test]
fn probe_failure_ends_without_verdict() {
    let (s, _) = NatProbe::start();
    assert_eq!(s.step(ProbeEvent::Mapped(None)).1, ProbeAction::Finish(None));
    let (s, _) = NatProbe::start();
    let (s, _) = s.step(ProbeEvent::Mapped(Some(SockAddr::V4 { ipv4: 5, port: 100 })));
    assert_eq!(s.step(ProbeEvent::Mapped(None)).1, ProbeAction::Finish(None));
}

#[test]
fn retry_schedule_doubles_and_stops_after_five() {
    let mut r = NatRetry::new();
    let mut waits = vec![];
    loop {
        match r.on_attempt(None) {
            RetryAction::Wait(s) => waits.push(s),
            RetryAction::GiveUp => break,
            RetryAction::Record(_) => panic!("no verdict given"),
        }
    }
    assert_eq!(waits, vec![2, 4, 8, 16]);
    let mut r = NatRetry::new();
    assert_eq!(r.on_attempt(Some(false)), RetryAction::Record(false));
}
