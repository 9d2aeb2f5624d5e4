//! Datagram sessions: who gets which datagram.
use nerw_rpc::context::loopback_node_id;
use nerw_rpc::datagram::{DatagramDispatcher, DEFAULT_MAX_CONCURRENT_DATAGRAMS};
use nerw_rpc::error::RpcError;
use nerw_rpc::transport::ALPN_NERW_DATAGRAM_1_0_0;
use nerw_rpc::wire::encode_stream_id;

fn build_frame(stream_id: u64, payload: &[u8]) -> Vec<u8> {
    let mut buf = Vec::new();
    encode_stream_id(stream_id, &mut buf).expect("encode stream-id");
    buf.extend_from_slice(payload);
    buf
}

#[test]
fn new_dispatcher_has_zero_registered() {
    let d = DatagramDispatcher::new();
    assert_eq!(d.registered_count(), 0);
}

#[test]
fn register_and_unregister_round_trip() {
    let mut d = DatagramDispatcher::new();
    let h = 5;
    d.register(42, h).expect("register");
    assert_eq!(d.registered_count(), 1);
    let removed = d.unregister(42).expect("must return removed");
    assert_eq!(removed, h);
    assert_eq!(d.registered_count(), 0);
}

#[test]
fn register_collision_errors() {
    let mut d = DatagramDispatcher::new();
    d.register(7, 1).expect("first register");
    let err = d
        .register(7, 2)
        .expect_err("second register at same stream-id must error");
    match err {
        RpcError::DatagramStreamIdCollision { stream_id } => assert_eq!(stream_id, 7),
        other => panic!("expected DatagramStreamIdCollision, got {other:?}"),
    }
}

#[test]
fn unregister_unknown_stream_id_is_idempotent() {
    let mut d = DatagramDispatcher::new();
    let prev = d.unregister(9999);
    assert!(prev.is_none());
}

#[test]
fn register_supports_large_stream_ids() {
    let mut d = DatagramDispatcher::new();
    d.register(1_000_000, 1).expect("register large id");
    d.register(u64::from(u32::MAX), 2)
        .expect("register near-max id");
    assert_eq!(d.registered_count(), 2);
}

#[test]
fn dispatch_routes_to_correct_handler() {
    let mut d = DatagramDispatcher::new();
    d.register(1, 10).expect("register A");
    d.register(2, 20).expect("register B");

    let first = build_frame(1, &[0xAA, 0xBB]);
    let second = build_frame(2, &[0xCC]);
    let third = build_frame(1, &[0xDD, 0xEE, 0xFF]);
    assert_eq!(d.dispatch(&first), Ok((10, &[0xAA, 0xBB][..])));
    assert_eq!(d.dispatch(&second), Ok((20, &[0xCC][..])));
    assert_eq!(d.dispatch(&third), Ok((10, &[0xDD, 0xEE, 0xFF][..])));
}

#[test]
fn dispatch_unknown_stream_id_errors() {
    let d = DatagramDispatcher::new();
    let frame = build_frame(100, &[0xAA]);
    let err = d.dispatch(&frame).expect_err("unknown stream-id must error");
    match err {
        RpcError::DatagramStreamIdUnknown { stream_id } => assert_eq!(stream_id, 100),
        other => panic!("expected DatagramStreamIdUnknown, got {other:?}"),
    }
}

#[test]
fn dispatch_empty_frame_errors() {
    let d = DatagramDispatcher::new();
    let err = d.dispatch(&[]).expect_err("empty frame must error");
    match err {
        RpcError::DatagramTooShort { len } => assert_eq!(len, 0),
        other => panic!("expected DatagramTooShort, got {other:?}"),
    }
}

#[test]
fn dispatch_decodes_large_stream_id() {
    let mut d = DatagramDispatcher::new();
    let big_id: u64 = 1_000_000_000;
    d.register(big_id, 3).expect("register");
    let frame = build_frame(big_id, b"BIG");
    let (handler, payload) = d.dispatch(&frame).expect("dispatch");
    assert_eq!(handler, 3);
    assert_eq!(payload, b"BIG");
}

#[test]
fn build_context_uses_datagram_alpn() {
    let id = loopback_node_id();
    let ctx = DatagramDispatcher::build_context(id);
    assert_eq!(ctx.peer.node_id, id);
    assert_eq!(ctx.peer.alpn, ALPN_NERW_DATAGRAM_1_0_0);
    assert!(ctx.auth.is_none());
}

#[test]
fn new_dispatcher_uses_default_in_flight_cap() {
    let d = DatagramDispatcher::new();
    assert_eq!(d.max_in_flight(), DEFAULT_MAX_CONCURRENT_DATAGRAMS);
}

#[test]
fn with_max_in_flight_honors_caller_cap() {
    let d = DatagramDispatcher::with_max_in_flight(7);
    assert_eq!(d.max_in_flight(), 7);
}

#[test]
fn datagram_stream_id_collision_rejected() {
    let mut d = DatagramDispatcher::new();
    d.register(42, 1).expect("first");
    assert_eq!(
        d.register(42, 2),
        Err(RpcError::DatagramStreamIdCollision { stream_id: 42 })
    );
}

#[test]
fn the_first_handler_of_a_session_stays() {
    let mut d = DatagramDispatcher::new();
    assert_eq!(d.registered_count(), 0);
    d.register(42, 1).expect("first");
    assert_eq!(d.registered_count(), 1);
    d.register(42, 2).expect_err("taken");
    assert_eq!(d.registered_count(), 1);
    let frame = build_frame(42, b"x");
    assert_eq!(d.dispatch(&frame), Ok((1, &b"x"[..])));
    d.register(u64::MAX, 3).expect("any stream-id will do");
    assert_eq!(d.registered_count(), 2);
    assert_eq!(d.unregister(42), Some(1));
    assert_eq!(d.registered_count(), 1);
    d.register(42, 2).expect("a freed stream-id is free");
    assert_eq!(d.registered_count(), 2);
}

#[test]
fn datagram_stream_id_unregister_idempotent() {
    let mut d = DatagramDispatcher::new();
    assert_eq!(d.unregister(9999), None);
    assert_eq!(d.unregister(9999), None);
    d.register(7, 1).expect("register");
    assert_eq!(d.unregister(7), Some(1));
    assert_eq!(d.unregister(7), None);
    assert_eq!(d.registered_count(), 0);
}

#[test]
fn sessions_do_not_disturb_each_other() {
    let mut d = DatagramDispatcher::default();
    for id in 0..300u64 {
        d.register(id, id + 1000).expect("register");
    }
    assert_eq!(d.registered_count(), 300);
    for id in (0..300u64).step_by(3) {
        assert_eq!(d.unregister(id), Some(id + 1000));
    }
    assert_eq!(d.registered_count(), 200);
    for id in 0..300u64 {
        let frame = build_frame(id, b"p");
        if id % 3 == 0 {
            assert_eq!(
                d.dispatch(&frame),
                Err(RpcError::DatagramStreamIdUnknown { stream_id: id })
            );
        } else {
            assert_eq!(d.dispatch(&frame), Ok((id + 1000, &b"p"[..])));
        }
    }
}

#[test]
fn broken_stream_ids_are_refused() {
    let d = DatagramDispatcher::new();
    assert_eq!(
        d.dispatch(&[0x80]),
        Err(RpcError::DatagramTooShort { len: 1 })
    );
    assert_eq!(
        d.dispatch(&[0xff, 0x80, 0x80]),
        Err(RpcError::DatagramTooShort { len: 3 })
    );
    let mut wide = vec![0xff; 9];
    wide.push(0x02);
    assert_eq!(
        d.dispatch(&wide),
        Err(RpcError::MalformedFrame(
            "leb128 read stream-id: The number being read is larger than can be represented"
                .to_owned()
        ))
    );
}

#[test]
fn largest_stream_id_is_served() {
    let mut d = DatagramDispatcher::with_max_in_flight(1);
    d.register(u64::MAX, 8).expect("register");
    d.register(0, 9).expect("register");
    let top = build_frame(u64::MAX, b"");
    assert_eq!(top.len(), 10);
    assert_eq!(d.dispatch(&top), Ok((8, &b""[..])));
    assert_eq!(d.dispatch(&[0]), Ok((9, &b""[..])));
}

#[test]
fn datagram_context_carries_no_timing() {
    let ctx = DatagramDispatcher::build_context(loopback_node_id());
    assert_eq!(ctx.peer.connection_id, 0);
    assert_eq!(ctx.peer.stream_id, 0);
    assert_eq!(ctx.peer.alpn, b"nerw/datagram/1.0.0");
    assert_eq!(ctx.timing.received_at_ms, 0);
    assert!(ctx.session.is_none());
}
