use ergot::address::Address;
use ergot::conformance::net_stack::mocks::{ExpectedSend, ExpectedSendErr, ExpectedSendRaw, MockProfile};
use ergot::conformance::net_stack::{
    ifull, ilocal, inoroute, interface_err, ok, sifull, sinoroute, snoroute, stack_err,
    stack_interface_err, unicast_specific_port,
};
use ergot::interface_manager::InterfaceSendError;
use ergot::nash::NameHash;
use ergot::net_stack::{
    after_profile, after_sockets, broadcast_result, first_offer, request_header, socket_search_allowed,
    topic_broadcast_header, FirstOffer, NetStackSendError, SocketSendError,
};
use ergot::{AnyAllAppendix, FrameKind, Header, HeaderSeq, Key, ProtocolError, DEFAULT_TTL};

fn hdr(dst: Address, ttl: u8) -> Header {
    Header {
        src: Address { network_id: 0, node_id: 0, port_id: 9 },
        dst,
        any_all: None,
        seq_no: None,
        kind: FrameKind(1),
        ttl,
    }
}

#[test]
fn address_word_layout() {
    let a = Address { network_id: 0x1234, node_id: 0x56, port_id: 0x78 };
    assert_eq!(a.as_u32(), 0x1234_5678);
    assert_eq!(Address::from_word(0x1234_5678), a);
    assert_eq!(Address::from_word(a.as_u32()), a);
    assert_eq!(Address::from_word(0xFFFF_FFFF).as_u32(), 0xFFFF_FFFF);
}

#[test]
fn address_unknown_is_local() {
    let u = Address::unknown();
    assert_eq!(u, Address { network_id: 0, node_id: 0, port_id: 0 });
    assert!(u.net_node_any());
    assert!(Address { network_id: 0, node_id: 0, port_id: 5 }.net_node_any());
    assert!(!Address { network_id: 0, node_id: 1, port_id: 0 }.net_node_any());
    assert!(!Address { network_id: 3, node_id: 0, port_id: 0 }.net_node_any());
}

#[test]
fn header_with_seq_and_back() {
    let h = Header { seq_no: Some(3), ..hdr(Address { network_id: 1, node_id: 2, port_id: 3 }, 7) };
    let s = h.with_seq(0x99);
    assert_eq!(s.seq_no, 0x99);
    assert_eq!(s.src, h.src);
    assert_eq!(s.dst, h.dst);
    assert_eq!(s.ttl, 7);
    let back: Header = Header::from(s);
    assert_eq!(back.seq_no, Some(0x99));
    assert_eq!(back.dst, h.dst);
}

#[test]
fn header_seq_from_closure_only_when_missing() {
    let with = Header { seq_no: Some(5), ..hdr(Address::unknown(), 1) };
    assert_eq!(with.to_headerseq_or_with_seq(|| 77).seq_no, 5);
    let without = hdr(Address::unknown(), 1);
    assert_eq!(without.to_headerseq_or_with_seq(|| 77).seq_no, 77);
}

#[test]
fn header_ttl_runs_out() {
    let mut h = hdr(Address::unknown(), 1);
    assert_eq!(h.decrement_ttl(), Ok(()));
    assert_eq!(h.ttl, 0);
    assert_eq!(h.decrement_ttl(), Err(InterfaceSendError::TtlExpired));
    assert_eq!(h.ttl, 0);
    let mut s: HeaderSeq = hdr(Address::unknown(), 2).with_seq(1);
    assert_eq!(s.decrement_ttl(), Ok(()));
    assert_eq!(s.ttl, 1);
    let mut z: HeaderSeq = hdr(Address::unknown(), 0).with_seq(1);
    assert_eq!(z.decrement_ttl(), Err(InterfaceSendError::TtlExpired));
}

#[test]
fn default_ttl_value() {
    assert_eq!(DEFAULT_TTL, 16);
}

#[test]
fn name_hash_is_fnv1a() {
    assert_eq!(NameHash::new("hello").to_u32(), 0x4f9f2cab);
    assert_eq!(NameHash::new("").to_u32(), 0x811c9dc5);
    assert_eq!(NameHash::new("a").to_u32(), 0xe40c292c);
}

#[test]
fn name_hash_from_u32() {
    assert!(NameHash::from_u32(0).is_none());
    assert_eq!(NameHash::from_u32(42).unwrap().to_u32(), 42);
    assert_eq!(NameHash::from_u32(42), NameHash::from_u32(42));
}

#[test]
fn interface_error_codes() {
    assert_eq!(InterfaceSendError::DestinationLocal.to_error(), ProtocolError(11));
    assert_eq!(InterfaceSendError::NoRouteToDest.to_error(), ProtocolError(12));
    assert_eq!(InterfaceSendError::InterfaceFull.to_error(), ProtocolError(13));
    assert_eq!(InterfaceSendError::PlaceholderOhNo.to_error(), ProtocolError(14));
    assert_eq!(InterfaceSendError::AnyPortMissingKey.to_error(), ProtocolError(15));
    assert_eq!(InterfaceSendError::TtlExpired.to_error(), ProtocolError(16));
    assert_eq!(InterfaceSendError::RoutingLoop.to_error(), ProtocolError(17));
}

#[test]
fn net_stack_error_codes() {
    assert_eq!(NetStackSendError::NoRoute.to_error(), ProtocolError(21));
    assert_eq!(NetStackSendError::AnyPortMissingKey.to_error(), ProtocolError(22));
    assert_eq!(NetStackSendError::WrongPortKind.to_error(), ProtocolError(23));
    assert_eq!(NetStackSendError::AnyPortNotUnique.to_error(), ProtocolError(24));
    assert_eq!(NetStackSendError::AllPortMissingKey.to_error(), ProtocolError(25));
    assert_eq!(NetStackSendError::WouldDeadlock.to_error(), ProtocolError(26));
    assert_eq!(NetStackSendError::SocketSend(SocketSendError::NoSpace).to_error(), ProtocolError(1));
    assert_eq!(NetStackSendError::SocketSend(SocketSendError::WhatTheHell).to_error(), ProtocolError(4));
    assert_eq!(
        NetStackSendError::InterfaceSend(InterfaceSendError::RoutingLoop).to_error(),
        ProtocolError(17)
    );
}

#[test]
fn frame_kind_and_protocol_error_constants() {
    assert_eq!(FrameKind::reserved(), FrameKind(0));
    assert_eq!(FrameKind::endpoint_req(), FrameKind(1));
    assert_eq!(FrameKind::endpoint_resp(), FrameKind(2));
    assert_eq!(FrameKind::topic_msg(), FrameKind(3));
    assert_eq!(FrameKind::protocol_error(), FrameKind(255));
    assert_eq!(ProtocolError::nsse_would_deadlock(), ProtocolError(26));
}

#[test]
fn first_offer_by_destination() {
    assert_eq!(first_offer(&hdr(Address { network_id: 0, node_id: 0, port_id: 255 }, 1)), FirstOffer::Broadcast);
    assert_eq!(first_offer(&hdr(Address { network_id: 0, node_id: 0, port_id: 4 }, 1)), FirstOffer::Sockets);
    assert_eq!(first_offer(&hdr(Address { network_id: 2, node_id: 0, port_id: 4 }, 1)), FirstOffer::Profile);
    assert_eq!(first_offer(&unicast_specific_port()), FirstOffer::Profile);
}

#[test]
fn no_sockets_interface_takes() {
    assert_eq!(first_offer(&unicast_specific_port()), FirstOffer::Profile);
    assert_eq!(after_profile(ok()), Some(ok()));
}

#[test]
fn no_sockets_no_iroute() {
    assert_eq!(after_profile(inoroute()), Some(sinoroute()));
}

#[test]
fn no_sockets_interface_full() {
    assert_eq!(after_profile(ifull()), Some(sifull()));
}

#[test]
fn no_sockets_interface_local() {
    assert_eq!(after_profile(ilocal()), None);
    assert_eq!(after_sockets(None), snoroute());
}

#[test]
fn socket_offer_outcomes() {
    let any = hdr(Address { network_id: 0, node_id: 0, port_id: 0 }, 1);
    assert_eq!(socket_search_allowed(&any), Err(NetStackSendError::AnyPortMissingKey));
    let keyed = Header { any_all: Some(AnyAllAppendix { key: Key([1; 8]), nash: None }), ..any };
    assert_eq!(socket_search_allowed(&keyed), Ok(()));
    assert_eq!(socket_search_allowed(&hdr(Address::unknown(), 1)), Err(NetStackSendError::AnyPortMissingKey));
    assert_eq!(after_sockets(Some(Ok(()))), Ok(()));
    assert_eq!(
        after_sockets(Some(Err(SocketSendError::TypeMismatch))),
        Err(NetStackSendError::SocketSend(SocketSendError::TypeMismatch))
    );
}

#[test]
fn broadcast_any_taker_succeeds() {
    assert_eq!(broadcast_result(true, Err(InterfaceSendError::NoRouteToDest)), Ok(()));
    assert_eq!(broadcast_result(false, Ok(())), Ok(()));
    assert_eq!(
        broadcast_result(false, Err(InterfaceSendError::NoRouteToDest)),
        Err(NetStackSendError::InterfaceSend(InterfaceSendError::NoRouteToDest))
    );
}

#[test]
fn conformance_helpers() {
    assert_eq!(interface_err(InterfaceSendError::RoutingLoop), Err(InterfaceSendError::RoutingLoop));
    assert_eq!(stack_interface_err(InterfaceSendError::InterfaceFull), sifull());
    assert_eq!(stack_err(NetStackSendError::NoRoute), snoroute());
    let h = unicast_specific_port();
    assert_eq!(h.dst, Address { network_id: 10, node_id: 10, port_id: 10 });
    assert_eq!(h.ttl, DEFAULT_TTL);
}

#[test]
fn mock_profile_expectations() {
    let mut m = MockProfile::new();
    assert!(m.all_empty());
    m.assert_all_empty();
    let h = unicast_specific_port();
    m.add_exp_send(ExpectedSend { hdr: h, data: vec![1, 2], retval: Err(InterfaceSendError::InterfaceFull) });
    m.add_exp_send(ExpectedSend { hdr: h, data: vec![3], retval: Ok(()) });
    assert!(!m.all_empty());
    assert_eq!(m.send(&h, &[1, 2]), Err(InterfaceSendError::InterfaceFull));
    assert_eq!(m.send(&h, &[3]), Ok(()));
    assert!(m.all_empty());
    m.assert_all_empty();
}

#[test]
fn request_and_topic_headers() {
    let r = request_header(7, Address { network_id: 3, node_id: 2, port_id: 1 }, Key([9; 8]));
    assert_eq!(r.src, Address { network_id: 0, node_id: 0, port_id: 7 });
    assert_eq!(r.kind, FrameKind(1));
    assert_eq!(r.ttl, 16);
    assert_eq!(r.seq_no, None);
    assert_eq!(r.any_all.map(|a| a.key), Some(Key([9; 8])));
    assert_eq!(first_offer(&r), FirstOffer::Profile);
    let t = topic_broadcast_header(Key([4; 8]));
    assert_eq!(t.dst, Address { network_id: 0, node_id: 0, port_id: 255 });
    assert_eq!(t.kind, FrameKind(3));
    assert_eq!(first_offer(&t), FirstOffer::Broadcast);
}

#[test]
fn mock_profile_answers_error_and_raw_sends_in_order() {
    let mut m = MockProfile::new();
    let h = hdr(Address { network_id: 1, node_id: 2, port_id: 3 }, 5);
    m.add_exp_send_err(ExpectedSendErr { hdr: h, err: ProtocolError(7), retval: Ok(()) });
    m.add_exp_send_raw(ExpectedSendRaw {
        hdr: h,
        hdr_raw: vec![1],
        body: vec![2, 3],
        retval: Err(InterfaceSendError::NoRouteToDest),
    });
    assert!(!m.all_empty());
    assert_eq!(m.send_err(&h, ProtocolError(7)), Ok(()));
    assert_eq!(m.send_raw(&h, &[1], &[2, 3]), Err(InterfaceSendError::NoRouteToDest));
    assert!(m.all_empty());
    m.assert_all_empty();
}

