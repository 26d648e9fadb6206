use ergot::address::Address;
use ergot::interface_manager::null::NullInterfaceManager;
use ergot::interface_manager::profiles::direct_edge;
use ergot::interface_manager::profiles::direct_edge::tokio_udp::{
    check_registration as udp_check_registration, InterfaceKind, SocketAlreadyActive as UdpSocketAlreadyActive,
};
use ergot::interface_manager::profiles::direct_edge::tokio_tcp::{
    check_registration as tcp_check_registration, SocketAlreadyActive as TcpSocketAlreadyActive,
};
use ergot::interface_manager::profiles::direct_router;
use ergot::interface_manager::profiles::direct_router::{active_nets, cobs_buf_size, DirectRouter};
use ergot::interface_manager::profiles::no_std_router;
use ergot::interface_manager::profiles::no_std_router::{
    DeregisterError as SlotDeregisterError, NoStdRouter, RegisterError, RouterFrameProcessor,
};
use ergot::interface_manager::profiles::null::Null;
use ergot::interface_manager::{
    ConstInit, DeregisterError, InterfaceSendError, InterfaceState, SeedAssignmentError,
    SeedRefreshError, SendPlan, SetStateError,
};
use ergot::{AnyAllAppendix, FrameKind, Header, HeaderSeq, Key};

fn addr(network_id: u16, node_id: u8, port_id: u8) -> Address {
    Address { network_id, node_id, port_id }
}

fn hdr(dst: Address) -> Header {
    Header { src: addr(0, 0, 9), dst, any_all: None, seq_no: None, kind: FrameKind(3), ttl: 4 }
}

fn hseq(src: Address, dst: Address) -> HeaderSeq {
    HeaderSeq { src, dst, any_all: None, seq_no: 1, kind: FrameKind(3), ttl: 4 }
}

fn keyed(h: Header) -> Header {
    Header { any_all: Some(AnyAllAppendix { key: Key([7; 8]), nash: None }), ..h }
}

// ---- DirectRouter ----

#[test]
fn direct_router_assigns_lowest_free_net_ids() {
    let mut r = DirectRouter::new();
    assert_eq!(r.register_interface(0), Some(0));
    assert_eq!(r.register_interface(0), Some(1));
    assert_eq!(r.register_interface(0), Some(2));
    assert_eq!(r.net_id_of(0), Some(1));
    assert_eq!(r.net_id_of(1), Some(2));
    assert_eq!(r.net_id_of(2), Some(3));
    assert_eq!(r.net_id_of(9), None);
}

#[test]
fn direct_router_tombstone_blocks_then_reclaims() {
    let mut r = DirectRouter::new();
    let a = r.register_interface(0).unwrap();
    let _b = r.register_interface(0).unwrap();
    assert_eq!(r.deregister_interface(a, 1000), Ok(()));
    assert_eq!(r.deregister_interface(a, 1000), Err(DeregisterError::NoSuchInterface));
    // Net 1 is a tombstone for 30 seconds: the next interface gets net 3.
    let c = r.register_interface(2000).unwrap();
    assert_eq!(r.net_id_of(c), Some(3));
    // A message for net 1 has no route while the tombstone stands.
    let mut h = hdr(addr(1, 2, 5));
    assert_eq!(r.plan_send(&h, 5000).err(), Some(InterfaceSendError::NoRouteToDest));
    // After the grace period the tombstone is reclaimed for the next interface.
    let d = r.register_interface(31000).unwrap();
    assert_eq!(r.net_id_of(d), Some(1));
    h.ttl = 4;
    match r.plan_send(&h, 31000) {
        Ok(SendPlan::Unicast { ident, hdr }) => {
            assert_eq!(ident, d);
            assert_eq!(hdr.ttl, 3);
        }
        _ => panic!("expected a unicast"),
    }
}

#[test]
fn direct_router_local_and_loop() {
    let mut r = DirectRouter::new();
    let a = r.register_interface(0).unwrap();
    let b = r.register_interface(0).unwrap();
    assert_eq!(r.plan_send(&hdr(addr(1, 1, 5)), 0).err(), Some(InterfaceSendError::DestinationLocal));
    assert_eq!(r.plan_send(&hdr(addr(9, 2, 5)), 0).err(), Some(InterfaceSendError::NoRouteToDest));
    assert_eq!(r.plan_send(&hdr(addr(1, 2, 0)), 0).err(), Some(InterfaceSendError::AnyPortMissingKey));
    let raw = hseq(addr(1, 2, 3), addr(1, 2, 5));
    assert_eq!(r.plan_send_raw(&raw, a, 0).err(), Some(InterfaceSendError::RoutingLoop));
    match r.plan_send_raw(&raw, b, 0) {
        Ok(SendPlan::Unicast { ident, hdr }) => {
            assert_eq!(ident, a);
            assert_eq!(hdr.ttl, 3);
        }
        _ => panic!("expected a unicast"),
    }
    let mut dead = hdr(addr(2, 2, 5));
    dead.ttl = 0;
    assert_eq!(r.plan_send(&dead, 0).err(), Some(InterfaceSendError::NoRouteToDest));
    assert_eq!(r.plan_send_err(&hdr(addr(2, 2, 5)), Some(b), 0).err(), Some(InterfaceSendError::RoutingLoop));
    assert_eq!(r.plan_send_err(&hdr(addr(2, 2, 5)), Some(a), 0).map(|(i, _)| i), Ok(b));
}

#[test]
fn direct_router_broadcasts() {
    let mut r = DirectRouter::new();
    let a = r.register_interface(0).unwrap();
    let b = r.register_interface(0).unwrap();
    let c = r.register_interface(0).unwrap();
    // Locally originated: every link but the destination's network.
    match r.plan_send(&keyed(hdr(addr(2, 0, 255))), 0) {
        Ok(SendPlan::Broadcast { targets, if_none_sent }) => {
            let idents: Vec<u64> = targets.iter().map(|t| t.0).collect();
            assert_eq!(idents, vec![a, c]);
            assert_eq!(targets[0].1.dst, addr(1, 2, 255));
            assert_eq!(targets[1].1.dst, addr(3, 2, 255));
            assert_eq!(if_none_sent, InterfaceSendError::NoRouteToDest);
        }
        _ => panic!("expected a broadcast"),
    }
    // Forwarded: every link but the one it came in on.
    let mut raw = hseq(addr(2, 2, 1), addr(0, 0, 255));
    raw.any_all = Some(AnyAllAppendix { key: Key([1; 8]), nash: None });
    match r.plan_send_raw(&raw, b, 0) {
        Ok(SendPlan::Broadcast { targets, if_none_sent }) => {
            let idents: Vec<u64> = targets.iter().map(|t| t.0).collect();
            assert_eq!(idents, vec![a, c]);
            assert_eq!(if_none_sent, InterfaceSendError::NoRouteToDest);
        }
        _ => panic!("expected a broadcast"),
    }
    assert_eq!(r.plan_send(&hdr(addr(0, 0, 255)), 0).err(), Some(InterfaceSendError::AnyPortMissingKey));
}

#[test]
fn direct_router_broadcast_only_back_is_loop() {
    let mut r = DirectRouter::new();
    let a = r.register_interface(0).unwrap();
    let mut raw = hseq(addr(1, 2, 1), addr(0, 0, 255));
    raw.any_all = Some(AnyAllAppendix { key: Key([1; 8]), nash: None });
    match r.plan_send_raw(&raw, a, 0) {
        Ok(SendPlan::Broadcast { targets, if_none_sent }) => {
            assert!(targets.is_empty());
            assert_eq!(if_none_sent, InterfaceSendError::RoutingLoop);
        }
        _ => panic!("expected a broadcast"),
    }
    let mut empty = DirectRouter::new();
    assert_eq!(empty.plan_send_raw(&raw, a, 0).err(), Some(InterfaceSendError::NoRouteToDest));
}

#[test]
fn direct_router_seed_lease_lifecycle() {
    let mut r = DirectRouter::new();
    let a = r.register_interface(0).unwrap();
    assert_eq!(r.request_seed_net_assign(7, 0, 1), Err(SeedAssignmentError::UnknownSource));
    let asg = r.request_seed_net_assign(1, 1000, 0xABCD).unwrap();
    assert_eq!(asg.net_id, 2);
    assert_eq!(asg.expires_seconds, 30);
    assert_eq!(asg.max_refresh_seconds, 120);
    assert_eq!(asg.min_refresh_seconds, 62);
    assert_eq!(asg.refresh_token, 0xABCD);
    // The new network routes through the source's interface.
    match r.plan_send(&hdr(addr(2, 5, 1)), 2000) {
        Ok(SendPlan::Unicast { ident, .. }) => assert_eq!(ident, a),
        _ => panic!("expected a unicast"),
    }
    // Wrong token, wrong source, unknown net, a direct net.
    assert_eq!(r.refresh_seed_net_assignment(1, 2, 0x1111, 2000), Err(SeedRefreshError::BadRequest));
    assert_eq!(r.refresh_seed_net_assignment(3, 2, 0xABCD, 2000), Err(SeedRefreshError::BadRequest));
    assert_eq!(r.refresh_seed_net_assignment(1, 9, 0xABCD, 2000), Err(SeedRefreshError::UnknownNetId));
    assert_eq!(r.refresh_seed_net_assignment(1, 1, 0xABCD, 2000), Err(SeedRefreshError::NotAssigned));
    // The first lease can be refreshed at once; then the next refresh is too soon.
    let re = r.refresh_seed_net_assignment(1, 2, 0xABCD, 2000).unwrap();
    assert_eq!(re.net_id, 2);
    assert_eq!(re.expires_seconds, 120);
    assert_eq!(re.refresh_token, 0xABCD);
    assert_eq!(r.refresh_seed_net_assignment(1, 2, 0xABCD, 3000), Err(SeedRefreshError::TooSoon));
    // 62 seconds before the end it may be refreshed again.
    assert!(r.refresh_seed_net_assignment(1, 2, 0xABCD, 2000 + 120000 - 62000).is_ok());
    // Once run out, it is a tombstone.
    let end = 2000 + 120000 - 62000 + 120000;
    assert_eq!(r.refresh_seed_net_assignment(1, 2, 0xABCD, end), Err(SeedRefreshError::AlreadyExpired));
    assert_eq!(r.refresh_seed_net_assignment(1, 2, 0xABCD, end + 1), Err(SeedRefreshError::AlreadyExpired));
    assert_eq!(r.plan_send(&hdr(addr(2, 5, 1)), end + 1).err(), Some(InterfaceSendError::NoRouteToDest));
}

#[test]
fn direct_router_deregister_drops_seed_routes() {
    let mut r = DirectRouter::new();
    let a = r.register_interface(0).unwrap();
    let _b = r.register_interface(0).unwrap();
    let asg = r.request_seed_net_assign(1, 0, 5).unwrap();
    assert_eq!(asg.net_id, 3);
    assert_eq!(r.deregister_interface(a, 0), Ok(()));
    assert_eq!(r.plan_send(&hdr(addr(3, 5, 1)), 0).err(), Some(InterfaceSendError::NoRouteToDest));
    assert_eq!(r.refresh_seed_net_assignment(1, 3, 5, 0), Err(SeedRefreshError::UnknownNetId));
}

#[test]
fn direct_router_frame_source_rewrite() {
    let h = hseq(addr(0, 2, 4), addr(0, 0, 9));
    let out = direct_router::process_frame(7, &h).unwrap();
    assert_eq!(out.src, addr(7, 2, 4));
    assert_eq!(out.dst, h.dst);
    assert!(direct_router::process_frame(7, &hseq(addr(0, 0, 4), addr(0, 0, 9))).is_none());
    assert!(direct_router::process_frame(7, &hseq(addr(0, 1, 4), addr(0, 0, 9))).is_none());
    assert!(direct_router::process_frame(7, &hseq(addr(0, 3, 4), addr(0, 0, 9))).is_none());
    let remote = hseq(addr(5, 3, 4), addr(0, 0, 9));
    assert_eq!(direct_router::process_frame(7, &remote).unwrap().src, addr(5, 3, 4));
}

#[test]
fn cobs_buffer_sizes() {
    assert_eq!(cobs_buf_size(0), 1);
    assert_eq!(cobs_buf_size(1), 2);
    assert_eq!(cobs_buf_size(254), 255);
    assert_eq!(cobs_buf_size(255), 257);
    assert_eq!(cobs_buf_size(1024), 1029);
}

// ---- NoStdRouter ----

#[test]
fn no_std_router_registers_and_fills() {
    let mut r: NoStdRouter<2, 4> = NoStdRouter::new();
    assert_eq!(r.register_interface(), Ok(0));
    assert_eq!(r.register_interface(), Ok(1));
    assert_eq!(r.register_interface(), Err(RegisterError::Full));
    assert_eq!(r.net_id_of(0), Some(1));
    assert_eq!(r.net_id_of(1), Some(2));
    assert_eq!(r.deregister_interface(0, 0), Ok(()));
    assert_eq!(r.deregister_interface(0, 0), Err(SlotDeregisterError::NotFound));
    // The ident is reused; the net id never is.
    assert_eq!(r.register_interface(), Ok(0));
    assert_eq!(r.net_id_of(0), Some(3));
}

#[test]
fn no_std_router_routes() {
    let mut r: NoStdRouter<4, 4> = NoStdRouter::new();
    let a = r.register_interface().unwrap();
    let b = r.register_interface().unwrap();
    assert_eq!(r.plan_send(&hdr(addr(1, 1, 5)), 0).err(), Some(InterfaceSendError::DestinationLocal));
    match r.plan_send(&hdr(addr(2, 2, 5)), 0) {
        Ok(SendPlan::Unicast { ident, hdr }) => {
            assert_eq!(ident, b);
            assert_eq!(hdr.ttl, 3);
        }
        _ => panic!("expected a unicast"),
    }
    let raw = hseq(addr(1, 2, 3), addr(1, 2, 5));
    assert_eq!(r.plan_send_raw(&raw, a, 0).err(), Some(InterfaceSendError::RoutingLoop));
    assert_eq!(r.plan_send(&hdr(addr(9, 2, 5)), 0).err(), Some(InterfaceSendError::NoRouteToDest));
}

#[test]
fn no_std_router_seed_refresh_rotates_token() {
    let mut r: NoStdRouter<4, 4> = NoStdRouter::new();
    let a = r.register_interface().unwrap();
    let asg = r.request_seed_net_assign(1, 0, 11).unwrap();
    assert_eq!(asg.net_id, 2);
    assert_eq!(asg.expires_seconds, 30);
    assert_eq!(asg.refresh_token, 11);
    match r.plan_send(&hdr(addr(2, 5, 1)), 1000) {
        Ok(SendPlan::Unicast { ident, .. }) => assert_eq!(ident, a),
        _ => panic!("expected a unicast"),
    }
    assert_eq!(r.refresh_seed_net_assignment(1, 2, 12, 1000, 99), Err(SeedRefreshError::BadRequest));
    let re = r.refresh_seed_net_assignment(1, 2, 11, 1000, 22).unwrap();
    assert_eq!(re.refresh_token, 22);
    assert_eq!(re.expires_seconds, 120);
    assert_eq!(r.refresh_seed_net_assignment(1, 2, 22, 2000, 33), Err(SeedRefreshError::TooSoon));
    assert_eq!(r.refresh_seed_net_assignment(1, 2, 11, 100000, 33), Err(SeedRefreshError::BadRequest));
    assert_eq!(r.request_seed_net_assign(9, 0, 1), Err(SeedAssignmentError::UnknownSource));
}

#[test]
fn router_frame_processor_rewrites() {
    let mut p = RouterFrameProcessor::new(4);
    assert_eq!(p.net_id(), 4);
    p.reset();
    assert_eq!(p.net_id(), 4);
    let out = p.process_frame(&hseq(addr(0, 2, 1), addr(0, 0, 1))).unwrap();
    assert_eq!(out.src.network_id, 4);
    assert!(no_std_router::process_frame(4, &hseq(addr(0, 1, 1), addr(0, 0, 1))).is_none());
}

// ---- DirectEdge ----

#[test]
fn direct_edge_sends() {
    let h = hdr(addr(1, 1, 2));
    assert_eq!(direct_edge::send(&h).unwrap().ttl, 3);
    let mut dead = h;
    dead.ttl = 0;
    assert_eq!(direct_edge::send(&dead), Err(InterfaceSendError::TtlExpired));
    assert_eq!(direct_edge::send_err(&h, true), Err(InterfaceSendError::RoutingLoop));
    assert_eq!(direct_edge::send_err(&h, false).unwrap().ttl, 3);
    assert_eq!(direct_edge::send_raw(&hseq(addr(1, 1, 1), addr(2, 2, 2))), Err(InterfaceSendError::RoutingLoop));
}

#[test]
fn direct_edge_takes_network() {
    let h = hseq(addr(0, 1, 1), addr(5, 2, 9));
    assert!(direct_edge::should_take_net(None, &h));
    assert!(!direct_edge::should_take_net(Some(5), &h));
    assert!(direct_edge::should_take_net(Some(4), &h));
    assert!(!direct_edge::should_take_net(Some(4), &hseq(addr(0, 1, 1), addr(0, 2, 9))));
    let out = direct_edge::process_frame(Some(5), &h).unwrap();
    assert_eq!(out.src, addr(5, 1, 1));
    assert!(direct_edge::process_frame(Some(5), &hseq(addr(0, 0, 1), addr(5, 2, 9))).is_none());
    assert!(direct_edge::process_frame(Some(5), &hseq(addr(0, 2, 1), addr(5, 2, 9))).is_none());
    assert_eq!(direct_edge::process_frame(None, &h).unwrap().src, addr(0, 1, 1));
}

#[test]
fn direct_edge_registration() {
    assert!(direct_edge::can_register(None));
    assert!(direct_edge::can_register(Some(InterfaceState::Down)));
    assert!(!direct_edge::can_register(Some(InterfaceState::Inactive)));
    assert_eq!(tcp_check_registration(None), Ok(InterfaceState::Inactive));
    assert_eq!(tcp_check_registration(Some(InterfaceState::ActiveLocal { node_id: 2 })), Err(TcpSocketAlreadyActive));
    assert_eq!(
        udp_check_registration(Some(InterfaceState::Down), InterfaceKind::Controller),
        Ok((InterfaceState::Active { net_id: 1, node_id: 1 }, Some(1)))
    );
    assert_eq!(udp_check_registration(None, InterfaceKind::Target), Ok((InterfaceState::Inactive, None)));
    assert_eq!(
        udp_check_registration(Some(InterfaceState::Active { net_id: 3, node_id: 2 }), InterfaceKind::Target),
        Err(UdpSocketAlreadyActive)
    );
}

// ---- Null ----

#[test]
fn null_profiles_refuse_everything() {
    let mut n = Null::init();
    assert_eq!(n.send(&hdr(addr(0, 0, 3)), &[]), Err(InterfaceSendError::DestinationLocal));
    assert_eq!(n.send(&hdr(addr(1, 0, 3)), &[]), Err(InterfaceSendError::NoRouteToDest));
    assert_eq!(n.send_raw(&hdr(addr(1, 0, 3)), &[], &[]), Err(InterfaceSendError::NoRouteToDest));
    assert_eq!(n.send_err(&hdr(addr(0, 0, 3)), ergot::ProtocolError(1)), Err(InterfaceSendError::DestinationLocal));
    assert_eq!(n.interface_state(()), None);
    assert_eq!(n.set_interface_state((), InterfaceState::Down), Err(SetStateError::InterfaceNotFound));
    let mut im = NullInterfaceManager::init();
    assert_eq!(im.send(addr(0, 0, 0), addr(0, 0, 1), None, &[]), Err(InterfaceSendError::DestinationLocal));
    assert_eq!(im.send_raw(addr(0, 0, 0), addr(0, 1, 1), None, &[]), Err(InterfaceSendError::PlaceholderOhNo));
}

#[test]
fn direct_router_active_nets() {
    let states = [
        InterfaceState::Active { net_id: 3, node_id: 1 },
        InterfaceState::Down,
        InterfaceState::Inactive,
        InterfaceState::ActiveLocal { node_id: 1 },
        InterfaceState::Active { net_id: 1, node_id: 1 },
    ];
    assert_eq!(active_nets(&states), vec![3, 1]);
    assert!(active_nets(&[]).is_empty());
}

#[test]
fn direct_router_registered_interface_is_active_as_central_node() {
    let mut r = DirectRouter::new();
    assert_eq!(r.register_interface(0), Some(0));
    assert_eq!(r.register_interface(0), Some(1));
    assert_eq!(
        r.interface_state(0),
        Some(InterfaceState::Active { net_id: 1, node_id: direct_edge::CENTRAL_NODE_ID })
    );
    assert_eq!(r.get_nets(), vec![1, 2]);
    assert_eq!(r.set_interface_state(1, InterfaceState::Inactive), Ok(()));
    assert_eq!(r.interface_state(1), Some(InterfaceState::Inactive));
    assert_eq!(r.get_nets(), vec![1]);
    assert_eq!(r.set_interface_state(7, InterfaceState::Down), Err(SetStateError::InterfaceNotFound));
    assert_eq!(r.interface_state(7), None);
}

#[test]
fn no_std_router_reuses_idents_not_net_ids_and_sets_state() {
    let mut r: NoStdRouter<4, 4> = NoStdRouter::new();
    assert_eq!(r.register_interface(), Ok(0));
    assert_eq!(r.register_interface(), Ok(1));
    assert_eq!(r.register_interface(), Ok(2));
    assert_eq!(r.deregister_interface(1, 0), Ok(()));
    assert_eq!(r.register_interface(), Ok(1));
    assert_eq!(r.net_id_of(1), Some(4));
    assert_eq!(r.net_id_of(0), Some(1));
    assert_eq!(r.net_id_of(2), Some(3));
    assert_eq!(
        r.interface_state(1),
        Some(InterfaceState::Active { net_id: 4, node_id: direct_edge::CENTRAL_NODE_ID })
    );
    assert_eq!(r.set_interface_state(1, InterfaceState::Down), Ok(()));
    assert_eq!(r.interface_state(1), Some(InterfaceState::Down));
    assert_eq!(r.set_interface_state(3, InterfaceState::Down), Err(SetStateError::InterfaceNotFound));
}

#[test]
fn edge_takes_net_with_active_edge_state() {
    let h = hseq(addr(0, 1, 4), addr(5, 2, 9));
    assert_eq!(
        direct_edge::take_net_state(None, &h),
        Some(InterfaceState::Active { net_id: 5, node_id: direct_edge::EDGE_NODE_ID })
    );
    assert_eq!(direct_edge::take_net_state(Some(5), &h), None);
    assert_eq!(direct_edge::net_after_frame(None, &h, true), Some(Some(5)));
    assert_eq!(direct_edge::net_after_frame(None, &h, false), None);
    assert_eq!(direct_edge::net_after_frame(Some(5), &h, false), Some(Some(5)));
    // A frame for another network moves the device onto it.
    assert_eq!(direct_edge::net_after_frame(Some(3), &h, true), Some(Some(5)));
}

#[test]
fn no_std_router_deregister_moves_last_slot_into_place() {
    let mut r: NoStdRouter<4, 4> = NoStdRouter::new();
    let a = r.register_interface().unwrap();
    let b = r.register_interface().unwrap();
    let c = r.register_interface().unwrap();
    assert_eq!(r.deregister_interface(a, 0), Ok(()));
    // The last slot (c) took the freed place: broadcasts now go to c, then b.
    let mut raw = hseq(addr(9, 2, 1), addr(0, 0, 255));
    raw.any_all = Some(AnyAllAppendix { key: Key([1; 8]), nash: None });
    let d = r.register_interface().unwrap();
    match r.plan_send_raw(&raw, d, 0) {
        Ok(SendPlan::Broadcast { targets, .. }) => {
            let idents: Vec<u8> = targets.iter().map(|t| t.0).collect();
            assert_eq!(idents, vec![c, b]);
        }
        _ => panic!("expected a broadcast"),
    }
}

