use ergot::address::Address;
use ergot::interface_manager::interface_impls::embassy_usb::{get_string, send_timeout_ms, usb_chunks, UsbDeviceBuffers};
use ergot::interface_manager::interface_impls::nusb_bulk::{
    coarse_device_filter, device_match, select_endpoints, vendor_interface, BulkEndpoints, EndpointInfo,
    UsbDeviceLocation, UsbInterfaceInfo,
};
use ergot::interface_manager::std_tcp::frame::{de_frame, ser_frame, OwnedFrame};
use ergot::interface_manager::std_tcp::{drain, CobsAccumulator, FeedResult, StdTcpImInner, StdTcpInterface};
use ergot::interface_manager::interface_impls::nusb_bulk::{select_new_devices, DeviceInfo, FoundDevice};
use ergot::interface_manager::transports::tokio_cobs_stream::stream_on_timeout;
use ergot::interface_manager::transports::tokio_udp::{udp_rx_step, UdpRxAction, UdpRxEvent};
use ergot::interface_manager::std_tcp_router::{rewrite_source, route_header};
use ergot::interface_manager::transports::eusb_0_5::{UsbFrameReceiver, UsbRx};
use ergot::interface_manager::transports::nusb::{needs_zlp, on_transfer, refill_count, RxStep, TransferStatus};
use ergot::interface_manager::transports::{needs_down, registered_net_id, Liveness};
use ergot::interface_manager::{InterfaceSendError, InterfaceState, LivenessConfig};
use ergot::logging::defmt_sink::{max_frame_size, FrameAccumulator, LoggerState};
use ergot::logging::log_v0_4::{InternalSink, LogSink, StaticLogger};
use ergot::{AnyAllAppendix, FrameKind, Header, HeaderSeq, Key};

fn addr(network_id: u16, node_id: u8, port_id: u8) -> Address {
    Address { network_id, node_id, port_id }
}

// ---- COBS accumulation ----

#[test]
fn cobs_accumulator_whole_frame() {
    let mut acc = CobsAccumulator::new(16);
    match acc.feed_raw(&[0x03, 0x11, 0x22, 0x00, 0x02, 0x33]) {
        FeedResult::Success { data, remaining } => {
            assert_eq!(data, &[0x11, 0x22]);
            assert_eq!(remaining, &[0x02, 0x33]);
        }
        _ => panic!("expected a frame"),
    }
}

#[test]
fn cobs_accumulator_split_frame() {
    let mut acc = CobsAccumulator::new(16);
    assert!(matches!(acc.feed_raw(&[0x03, 0x11]), FeedResult::Consumed));
    assert!(matches!(acc.feed_raw(&[]), FeedResult::Consumed));
    match acc.feed_raw(&[0x22, 0x00]) {
        FeedResult::Success { data, remaining } => {
            assert_eq!(data, &[0x11, 0x22]);
            assert!(remaining.is_empty());
        }
        _ => panic!("expected a frame"),
    }
}

#[test]
fn cobs_accumulator_overfull_and_bad() {
    let mut acc = CobsAccumulator::new(2);
    match acc.feed_raw(&[0x05, 0x01, 0x02, 0x03]) {
        FeedResult::OverFull(rest) => assert_eq!(rest, &[0x02, 0x03]),
        _ => panic!("expected overfull"),
    }
    match acc.feed_raw(&[0x05, 0x01, 0x02, 0x00, 0x09]) {
        FeedResult::OverFull(rest) => assert_eq!(rest, &[0x09]),
        _ => panic!("expected overfull"),
    }
    let mut acc2 = CobsAccumulator::new(8);
    match acc2.feed_raw(&[0x05, 0x11, 0x00, 0x07]) {
        FeedResult::DeserError(rest) => assert_eq!(rest, &[0x07]),
        _ => panic!("expected a decode error"),
    }
    match acc2.feed_raw(&[0x00]) {
        FeedResult::Success { data, .. } => assert!(data.is_empty()),
        _ => panic!("expected an empty frame"),
    }
}

#[test]
fn cobs_accumulator_extend() {
    let mut acc = CobsAccumulator::new(8);
    acc.extend_unchecked(&[0x02, 0x44]);
    match acc.feed_raw(&[0x00]) {
        FeedResult::Success { data, .. } => assert_eq!(data, &[0x44]),
        _ => panic!("expected a frame"),
    }
}

// ---- frames ----

#[test]
fn frame_bytes_are_postcard_then_cobs() {
    let f = OwnedFrame { src: addr(1, 2, 3), dst: addr(4, 5, 6), seq: 7, key: None, body: vec![9] };
    let bytes = ser_frame(f);
    assert_eq!(bytes, vec![0x09, 0x83, 0x84, 0x04, 0x86, 0x8A, 0x10, 0x07, 0x09]);
}

#[test]
fn frame_roundtrip_through_accumulator() {
    let f = OwnedFrame {
        src: addr(0x1234, 2, 3),
        dst: addr(4, 5, 0),
        seq: 0x1234,
        key: Some(Key([0, 1, 2, 3, 4, 5, 6, 7])),
        body: vec![0, 0, 1, 200],
    };
    let mut wire = ser_frame(f);
    wire.push(0);
    let mut acc = CobsAccumulator::new(64);
    match acc.feed_raw(&wire) {
        FeedResult::Success { data, remaining } => {
            assert!(remaining.is_empty());
            let g = de_frame(data).expect("decodes");
            assert_eq!(g.src, addr(0x1234, 2, 3));
            assert_eq!(g.dst, addr(4, 5, 0));
            assert_eq!(g.seq, 0x1234);
            assert_eq!(g.key, Some(Key([0, 1, 2, 3, 4, 5, 6, 7])));
            assert_eq!(g.body, vec![0, 0, 1, 200]);
        }
        _ => panic!("expected a frame"),
    }
}

#[test]
fn de_frame_rejects_truncated() {
    assert!(de_frame(&[]).is_none());
    assert!(de_frame(&[0x83, 0x84]).is_none());
    // Destination port 0 needs an 8-byte key.
    assert!(de_frame(&[0x01, 0x00, 1, 2, 3]).is_none());
    let g = de_frame(&[0x01, 0x01, 0x05]).unwrap();
    assert_eq!(g.src, addr(0, 0, 1));
    assert_eq!(g.seq, 5);
    assert!(g.body.is_empty());
}

// ---- TCP interface manager ----

#[test]
fn tcp_allocates_lowest_free() {
    let mut im = StdTcpImInner::new();
    assert_eq!(im.alloc_intfc(), Some(1));
    assert_eq!(im.alloc_intfc(), Some(2));
    assert_eq!(im.alloc_intfc(), Some(3));
    assert_eq!(im.get_nets(), vec![1, 2, 3]);
    im.close_interface(2);
    assert_eq!(im.alloc_intfc(), Some(2));
    assert_eq!(im.get_nets(), vec![1, 2, 3]);
    assert_eq!(im.remove_interface(1), Some(StdTcpInterface { net_id: 1, closed: false }));
    assert_eq!(im.remove_interface(1), None);
    assert_eq!(im.alloc_intfc(), Some(1));
    assert_eq!(im.get_nets(), vec![1, 2, 3]);
}

#[test]
fn tcp_keeps_closed_until_a_receiver_stops() {
    let mut im = StdTcpImInner::new();
    assert_eq!(im.alloc_intfc(), Some(1));
    assert_eq!(im.alloc_intfc(), Some(2));
    assert_eq!(im.remove_interface(1).map(|i| i.net_id), Some(1));
    // Without a stopped receiver nothing is collected; the gap at 1 is reused.
    assert_eq!(im.alloc_intfc(), Some(1));
}

#[test]
fn tcp_routes_and_numbers_frames() {
    let mut im = StdTcpImInner::new();
    assert_eq!(im.alloc_intfc(), Some(1));
    assert_eq!(im.route(addr(0, 0, 4), addr(2, 2, 1), None), Err(InterfaceSendError::NoRouteToDest));
    assert_eq!(im.route(addr(0, 0, 4), addr(1, 1, 1), None), Err(InterfaceSendError::DestinationLocal));
    assert_eq!(im.route(addr(0, 0, 4), addr(1, 2, 1), None), Ok((1, addr(1, 1, 4), 0)));
    assert_eq!(im.route(addr(3, 3, 4), addr(1, 2, 1), None), Ok((1, addr(3, 3, 4), 1)));
    assert_eq!(
        im.route(addr(0, 0, 4), addr(1, 2, 0), Some(Key([1; 8]))),
        Ok((1, addr(1, 1, 4), 2))
    );
}

#[test]
fn tcp_router_routes_headers() {
    let mut im = StdTcpImInner::new();
    im.alloc_intfc();
    let h = Header {
        src: addr(0, 0, 8),
        dst: addr(1, 2, 0),
        any_all: Some(AnyAllAppendix { key: Key([2; 8]), nash: None }),
        seq_no: None,
        kind: FrameKind(1),
        ttl: 9,
    };
    let (net, hs) = route_header(&mut im, &h).unwrap();
    assert_eq!(net, 1);
    assert_eq!(hs.src, addr(1, 1, 8));
    assert_eq!(hs.seq_no, 0);
    assert_eq!(hs.ttl, 9);
    let h2 = HeaderSeq { src: addr(0, 3, 1), dst: addr(1, 1, 1), any_all: None, seq_no: 4, kind: FrameKind(1), ttl: 2 };
    assert_eq!(rewrite_source(6, &h2).src, addr(6, 3, 1));
    let h3 = HeaderSeq { src: addr(5, 3, 1), ..h2 };
    assert_eq!(rewrite_source(6, &h3).src, addr(5, 3, 1));
}

// ---- USB ----

#[test]
fn usb_chunks_add_zero_length_packet() {
    let f: Vec<u8> = (0..8).collect();
    let p = usb_chunks(&f, 4);
    assert_eq!(p, vec![vec![0, 1, 2, 3], vec![4, 5, 6, 7], vec![]]);
    let g: Vec<u8> = (0..6).collect();
    assert_eq!(usb_chunks(&g, 4), vec![vec![0, 1, 2, 3], vec![4, 5]]);
    assert!(usb_chunks(&[], 4).is_empty());
    assert_eq!(usb_chunks(&[1], 1), vec![vec![1], vec![]]);
}

#[test]
fn usb_send_timeouts() {
    assert_eq!(send_timeout_ms(0, 64, 2), 0);
    assert_eq!(send_timeout_ms(1, 64, 2), 2);
    assert_eq!(send_timeout_ms(64, 64, 2), 2);
    assert_eq!(send_timeout_ms(65, 64, 2), 4);
}

#[test]
fn usb_receiver_gets_back_what_was_sent() {
    let f: Vec<u8> = (0..9).collect();
    let mut rx = UsbFrameReceiver::new(16, 4);
    let packets = usb_chunks(&f, 4);
    let n = packets.len();
    for (i, p) in packets.iter().enumerate() {
        match rx.on_packet(p) {
            UsbRx::Pending => assert!(i + 1 < n),
            UsbRx::Frame(d) => {
                assert_eq!(i + 1, n);
                assert_eq!(d, f);
            }
            UsbRx::TooLarge => panic!("fits"),
        }
    }
    // A frame that is a multiple of the packet size ends with an empty packet.
    let g: Vec<u8> = (0..8).collect();
    let mut last = None;
    for p in usb_chunks(&g, 4) {
        last = Some(rx.on_packet(&p));
    }
    match last {
        Some(UsbRx::Frame(d)) => assert_eq!(d, g),
        _ => panic!("expected the frame"),
    }
}

#[test]
fn usb_receiver_drops_frames_too_large() {
    let mut rx = UsbFrameReceiver::new(8, 4);
    assert!(matches!(rx.on_packet(&[1, 2, 3, 4]), UsbRx::Pending));
    assert!(matches!(rx.on_packet(&[1, 2, 3, 4]), UsbRx::Pending));
    // The buffer is full: the rest of the frame is skipped, then dropped.
    assert!(matches!(rx.on_packet(&[5, 6, 7, 8]), UsbRx::Pending));
    assert!(matches!(rx.on_packet(&[9]), UsbRx::TooLarge));
    // The next frame is received normally.
    match rx.on_packet(&[1, 2]) {
        UsbRx::Frame(d) => assert_eq!(d, vec![1, 2]),
        _ => panic!("expected a frame"),
    }
    // A packet that does not fit in what is left is too large.
    assert!(matches!(rx.on_packet(&[1, 2, 3, 4]), UsbRx::Pending));
    assert!(matches!(rx.on_packet(&[1, 2, 3, 4, 5]), UsbRx::TooLarge));
}

#[test]
fn usb_device_buffers_start_zeroed() {
    let b: UsbDeviceBuffers<4, 2, 3, 1> = UsbDeviceBuffers::new();
    assert_eq!(b.config_descriptor, [0; 4]);
    assert_eq!(b.bos_descriptor, [0; 2]);
    assert_eq!(b.control_buf, [0; 3]);
    assert_eq!(b.msos_descriptor, [0; 1]);
}

#[test]
fn nusb_receive_steps() {
    assert_eq!(refill_count(0), 4);
    assert_eq!(refill_count(3), 1);
    assert_eq!(refill_count(4), 0);
    assert_eq!(refill_count(9), 0);
    assert_eq!(on_transfer(2, TransferStatus::Complete), (0, RxStep::Deliver));
    assert_eq!(on_transfer(0, TransferStatus::Stall), (1, RxStep::Recover));
    assert_eq!(on_transfer(2, TransferStatus::Unknown), (3, RxStep::Recover));
    assert_eq!(on_transfer(3, TransferStatus::Stall), (4, RxStep::Exit));
    assert_eq!(on_transfer(0, TransferStatus::Disconnected), (1, RxStep::Exit));
    assert_eq!(on_transfer(0, TransferStatus::Cancelled), (1, RxStep::Exit));
    assert_eq!(on_transfer(0, TransferStatus::Fault), (1, RxStep::Exit));
    assert_eq!(on_transfer(5, TransferStatus::Stall), (6, RxStep::Exit));
}

#[test]
fn nusb_zero_length_packets() {
    assert!(needs_zlp(64, Some(64)));
    assert!(needs_zlp(0, Some(64)));
    assert!(!needs_zlp(65, Some(64)));
    assert!(needs_zlp(7, None));
}

#[test]
fn nusb_device_search() {
    let ergot = UsbInterfaceInfo { class: 0xFF, subclass: 0xCA, protocol: 0x7D, interface_string: Some("ergot".to_string()) };
    let unnamed = UsbInterfaceInfo { class: 0xFF, subclass: 0xCA, protocol: 0x7D, interface_string: None };
    let other = UsbInterfaceInfo { class: 0xFF, subclass: 0xCA, protocol: 0x7D, interface_string: Some("other".to_string()) };
    let hid = UsbInterfaceInfo { class: 0x03, subclass: 0xCA, protocol: 0x7D, interface_string: None };
    assert!(coarse_device_filter(&vec![hid, ergot]));
    assert!(coarse_device_filter(&vec![unnamed]));
    assert!(!coarse_device_filter(&vec![other]));
    assert!(!coarse_device_filter(&vec![]));
    assert_eq!(vendor_interface(&vec![3, 0xFF, 0xFF]), Some(1));
    assert_eq!(vendor_interface(&vec![3, 8]), None);
    let a = UsbDeviceLocation { bus_number: 1, device_address: 4, registry_entry_id: None };
    assert!(device_match(&a, &a));
    assert!(!device_match(&a, &UsbDeviceLocation { device_address: 5, ..a }));
    assert!(!device_match(&a, &UsbDeviceLocation { registry_entry_id: Some(3), ..a }));
}

#[test]
fn nusb_endpoint_choice() {
    let eps = vec![
        EndpointInfo { bulk: true, out: true, address: 0x01, max_packet_size: 512 },
        EndpointInfo { bulk: false, out: true, address: 0x02, max_packet_size: 8 },
        EndpointInfo { bulk: true, out: false, address: 0x81, max_packet_size: 512 },
        EndpointInfo { bulk: true, out: true, address: 0x03, max_packet_size: 64 },
    ];
    assert_eq!(
        select_endpoints(&eps),
        BulkEndpoints { max_packet_size: Some(64), ep_out: Some(0x03), ep_in: Some(0x81) }
    );
    assert_eq!(select_endpoints(&vec![]), BulkEndpoints { max_packet_size: None, ep_out: None, ep_in: None });
}

// ---- liveness and registration ----

#[test]
fn liveness_timer_waits_for_first_frame() {
    let mut l = Liveness::new(Some(LivenessConfig { timeout_ms: 500 }));
    assert_eq!(l.timeout_ms(), None);
    assert!(!l.on_frame(false));
    assert_eq!(l.timeout_ms(), Some(500));
    assert!(l.on_frame(true));
    let act = l.on_timeout(Some(InterfaceState::Active { net_id: 1, node_id: 2 }));
    assert!(act.set_inactive && act.notify && act.reset_processor);
    assert_eq!(l.timeout_ms(), None);
    let act2 = l.on_timeout(Some(InterfaceState::Inactive));
    assert!(!act2.set_inactive && !act2.notify && act2.reset_processor);
    let mut off = Liveness::new(None);
    off.on_frame(false);
    assert_eq!(off.timeout_ms(), None);
}

#[test]
fn registration_and_teardown_decisions() {
    assert_eq!(registered_net_id(Some(InterfaceState::Active { net_id: 4, node_id: 1 })), Some(4));
    assert_eq!(registered_net_id(Some(InterfaceState::Inactive)), None);
    assert_eq!(registered_net_id(None), None);
    assert!(!needs_down(None));
    assert!(!needs_down(Some(InterfaceState::Down)));
    assert!(needs_down(Some(InterfaceState::ActiveLocal { node_id: 2 })));
}

// ---- logging ----

#[test]
fn defmt_frames_commit_whole_or_not_at_all() {
    assert_eq!(max_frame_size(1024), 512);
    assert_eq!(max_frame_size(16), 16);
    let mut acc = FrameAccumulator::try_new(vec![0; 6]);
    assert_eq!(acc.capacity(), 6);
    acc.write(&[1, 2]);
    acc.write(&[3, 4, 5]);
    assert_eq!(acc.frame(), &[1, 2, 3, 4, 5]);
    assert_eq!(acc.commit(), Some(5));
    let mut big = FrameAccumulator::try_new(vec![0; 3]);
    big.write(&[1, 2]);
    big.write(&[3, 4]);
    assert_eq!(big.frame(), &[1, 2, 3]);
    assert_eq!(big.commit(), None);
}

#[test]
fn internal_log_sink_choice() {
    let mut s = StaticLogger::new();
    assert_eq!(s.geil(), InternalSink::Global);
    s.set_null_atomic();
    assert_eq!(s.geil(), InternalSink::Null);
    assert!(s.set_manual_with_cs());
    assert_eq!(s.geil(), InternalSink::Manual);
    assert!(!s.set_manual_with_cs());
    s.set_null_with_cs();
    assert_eq!(s.geil(), InternalSink::Manual);
    let sink = LogSink::new(5u8);
    assert_eq!(*sink.stack(), 5);
}

#[test]
fn address_takes_four_bytes_below_network_4096() {
    let short = OwnedFrame { src: addr(4095, 255, 255), dst: addr(1, 1, 1), seq: 1, key: None, body: vec![] };
    let long = OwnedFrame { src: addr(4096, 0, 0), dst: addr(1, 1, 1), seq: 1, key: None, body: vec![] };
    // src word + dst word (3 bytes) + seq (1 byte), plus one COBS code byte.
    assert_eq!(ser_frame(short).len(), 4 + 3 + 1 + 1);
    assert_eq!(ser_frame(long).len(), 5 + 3 + 1 + 1);
}

#[test]
fn usb_interface_string() {
    assert_eq!(get_string(0xFF, 0xFF, 0x0409), None);
    assert_eq!(get_string(4, 4, 0x0409), Some("ergot"));
    assert_eq!(get_string(4, 5, 0x0409), None);
    assert_eq!(get_string(4, 4, 0x0407), None);
    let announced = UsbInterfaceInfo {
        class: 0xFF,
        subclass: 0xCA,
        protocol: 0x7D,
        interface_string: get_string(4, 4, 0x0409).map(|s| s.to_string()),
    };
    assert!(coarse_device_filter(&vec![announced]));
}

#[test]
fn defmt_logger_gathers_one_frame_per_message() {
    let mut state = LoggerState::new();
    state.acquire(Some(vec![0; 8]));
    state.write(&[1, 2]);
    state.write(&[3]);
    assert_eq!(state.release(), Some(vec![1, 2, 3]));

    // Without a grant the message goes to no frame.
    state.acquire(None);
    state.write(&[9, 9]);
    assert_eq!(state.release(), None);

    // A message that does not fit is dropped whole.
    state.acquire(Some(vec![0; 2]));
    state.write(&[1]);
    state.write(&[2, 3]);
    assert_eq!(state.release(), None);

    // The logger is idle again and takes the next message.
    state.acquire(Some(vec![0; 4]));
    state.write(&[7]);
    assert_eq!(state.release(), Some(vec![7]));
}

fn frame(seq: u16, body: Vec<u8>) -> OwnedFrame {
    OwnedFrame { src: addr(1, 2, 3), dst: addr(4, 5, 6), seq, key: None, body }
}

#[test]
fn drain_delivers_frames_across_chunks() {
    let mut stream = ser_frame(frame(1, vec![0, 7]));
    stream.push(0);
    stream.extend_from_slice(&ser_frame(frame(2, vec![8])));
    stream.push(0);
    let mut acc = CobsAccumulator::new(64);
    // Split the stream in the middle of the second frame.
    let cut = stream.len() - 3;
    let first = drain(&mut acc, &stream[..cut]);
    assert_eq!(first.len(), 1);
    assert_eq!(first[0].seq, 1);
    assert_eq!(first[0].body, vec![0, 7]);
    let second = drain(&mut acc, &stream[cut..]);
    assert_eq!(second.len(), 1);
    assert_eq!(second[0].seq, 2);
    assert_eq!(second[0].body, vec![8]);
    // Nothing is left pending: the same stream in one chunk gives both again.
    let both = drain(&mut acc, &stream);
    assert_eq!(both.len(), 2);
}

#[test]
fn drain_skips_overfull_and_undecodable_frames() {
    let mut acc = CobsAccumulator::new(8);
    // A run too long for the buffer, a frame that is not COBS (its code runs past
    // the end), a frame whose bytes are too short to read as a frame, then a good one.
    let mut stream = vec![1, 2, 3, 4, 5, 6, 7, 8, 9, 0, 0x05, 0x11, 0, 0x02, 0x01, 0];
    let good = ser_frame(OwnedFrame { src: addr(0, 1, 1), dst: addr(0, 1, 1), seq: 0, key: None, body: vec![] });
    stream.extend_from_slice(&good);
    stream.push(0);
    let frames = drain(&mut acc, &stream);
    assert_eq!(frames.len(), 1);
    assert_eq!(frames[0].src, addr(0, 1, 1));
    assert_eq!(frames[0].seq, 0);
    // A run that overflows with no terminator leaves only its tail pending.
    assert_eq!(drain(&mut acc, &[1, 2, 3, 4, 5, 6, 7, 8, 9, 10]).len(), 0);
}

#[test]
fn stream_timeout_drops_partial_frame() {
    let mut live = Liveness::new(Some(LivenessConfig { timeout_ms: 100 }));
    live.on_frame(false);
    let mut acc = CobsAccumulator::new(16);
    // Half a frame arrives, then the stream goes silent.
    assert!(matches!(acc.feed_raw(&[0x03, 0x11]), FeedResult::Consumed));
    let act = stream_on_timeout(&mut live, &mut acc, Some(InterfaceState::Active { net_id: 1, node_id: 2 }));
    assert!(act.set_inactive && act.notify && act.reset_processor);
    assert_eq!(live.timeout_ms(), None);
    // The next frame is read on its own, not glued onto the old half.
    match acc.feed_raw(&[0x02, 0x44, 0x00]) {
        FeedResult::Success { data, remaining } => {
            assert_eq!(data, &[0x44]);
            assert!(remaining.is_empty());
        }
        _ => panic!("expected a frame"),
    }
}

#[test]
fn udp_rx_steps() {
    let mut live = Liveness::new(Some(LivenessConfig { timeout_ms: 50 }));
    assert_eq!(udp_rx_step(&mut live, UdpRxEvent::Datagram(0)), UdpRxAction::Retry);
    assert_eq!(live.timeout_ms(), None);
    assert_eq!(udp_rx_step(&mut live, UdpRxEvent::RecvError), UdpRxAction::Retry);
    assert_eq!(udp_rx_step(&mut live, UdpRxEvent::Datagram(12)), UdpRxAction::Process(12));
    assert_eq!(live.timeout_ms(), Some(50));
    assert_eq!(udp_rx_step(&mut live, UdpRxEvent::Timeout), UdpRxAction::Stop { set_down: true });
    assert_eq!(udp_rx_step(&mut live, UdpRxEvent::Closed), UdpRxAction::Stop { set_down: false });
}

fn ergot_if() -> UsbInterfaceInfo {
    UsbInterfaceInfo { class: 0xFF, subclass: 0xCA, protocol: 0x7D, interface_string: None }
}

fn ep(bulk: bool, out: bool, address: u8, max_packet_size: usize) -> EndpointInfo {
    EndpointInfo { bulk, out, address, max_packet_size }
}

fn info(serial: &str) -> DeviceInfo {
    DeviceInfo { usb_serial_number: Some(serial.to_string()), usb_manufacturer: None, usb_product: None }
}

#[test]
fn new_devices_are_selected() {
    let known = vec![info("known")];
    let found = vec![
        // Already known: skipped.
        FoundDevice { info: info("known"), interfaces: vec![ergot_if()], endpoints: vec![ep(true, true, 1, 64), ep(true, false, 0x81, 64)] },
        // Good: smallest OUT packet size, last endpoints.
        FoundDevice { info: info("a"), interfaces: vec![ergot_if()], endpoints: vec![ep(true, true, 1, 512), ep(true, true, 2, 64), ep(false, false, 0x83, 8), ep(true, false, 0x81, 512)] },
        // No bulk IN endpoint: skipped.
        FoundDevice { info: info("b"), interfaces: vec![ergot_if()], endpoints: vec![ep(true, true, 1, 64)] },
        // Not an ergot interface: skipped.
        FoundDevice { info: info("c"), interfaces: vec![UsbInterfaceInfo { class: 0xFF, subclass: 0, protocol: 0, interface_string: None }], endpoints: vec![ep(true, true, 1, 64), ep(true, false, 0x81, 64)] },
    ];
    let sel = select_new_devices(&known, &found);
    assert_eq!(sel.len(), 1);
    assert_eq!(sel[0].index, 1);
    assert_eq!(sel[0].interface, 0);
    assert_eq!(sel[0].ep_out, 2);
    assert_eq!(sel[0].ep_in, 0x81);
    assert_eq!(sel[0].max_packet_size, Some(64));
}

#[test]
fn liveness_send_restarts_timer_only_once_armed() {
    let mut l = Liveness::new(Some(LivenessConfig { timeout_ms: 70 }));
    assert_eq!(l.on_send(), None);
    assert_eq!(l.timeout_ms(), None);
    l.on_frame(false);
    assert_eq!(l.on_send(), Some(70));
    assert_eq!(l.timeout_ms(), Some(70));
    let mut off = Liveness::new(None);
    off.on_frame(true);
    assert_eq!(off.on_send(), None);
}

