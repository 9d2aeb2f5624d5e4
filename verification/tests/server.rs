//! What a server does with connections, requests and streaming calls.
use std::sync::Arc;

use nerw_rpc::client::decode_response_frame;
use nerw_rpc::context::NodeId;
use nerw_rpc::error::RpcError;
use nerw_rpc::method::MethodRegistry;
use nerw_rpc::server::{
    answer_unary, build_inbound_context, build_unary_request_frame, dispatch_unary,
    drain_handler_responses, finalise_streaming, handle_inbound_substream,
    handle_unary_stream_with_opcode_consumed, pump_inbound_requests, saturate,
    streaming_negotiate_open, write_error, write_response, ConnectionRoute, HandlerExit, OpenStep,
    Opening, ResponseSide, RpcServer, RpcServerConfig, UnaryStep, WireDispatchHandler,
    CLOSE_NO_HANDLER, DEFAULT_MAX_CONCURRENT_CONNECTIONS, DEFAULT_MAX_CONCURRENT_STREAMS,
    RPC_STREAM_READ_LIMIT,
};
use nerw_rpc::streaming::{
    write_frame, StreamingError, StreamingFrame, StreamingOpenRequest, StreamingOpenResponse,
    StreamingOpenStatus,
};
use nerw_rpc::transport::{ALPN_NERW_RPC_1_0_0, ALPN_TOLKI_DATAGRAM_2_0_0};
use nerw_rpc::wire::{decode_method_name, OPCODE_UNARY_REQUEST};

#[test]
fn build_unary_request_frame_includes_opcode_name_and_payload() {
    let frame = build_unary_request_frame("tolki:hello@1.0.0/test/echo", b"PAYLOAD").expect("frame");
    assert_eq!(frame[0], OPCODE_UNARY_REQUEST);
    // Round-trip: skip opcode, parse method-name, payload should follow.
    let (name, rest) = decode_method_name(&frame[1..]).expect("decode");
    assert_eq!(name, "tolki:hello@1.0.0/test/echo");
    assert_eq!(rest, b"PAYLOAD");
}

#[test]
fn build_unary_request_frame_with_empty_payload() {
    let frame = build_unary_request_frame("tolki:x@1.0.0/i/m", &[]).expect("frame");
    assert_eq!(frame[0], OPCODE_UNARY_REQUEST);
    let (name, rest) = decode_method_name(&frame[1..]).expect("decode");
    assert_eq!(name, "tolki:x@1.0.0/i/m");
    assert!(rest.is_empty());
}

#[test]
fn rpc_server_config_default_uses_documented_constants() {
    let cfg = RpcServerConfig::default();
    assert_eq!(cfg.max_concurrent_streams, DEFAULT_MAX_CONCURRENT_STREAMS);
    assert_eq!(
        cfg.max_concurrent_connections,
        DEFAULT_MAX_CONCURRENT_CONNECTIONS
    );
}

#[test]
fn rpc_server_config_default_constants_are_nonzero() {
    assert!(DEFAULT_MAX_CONCURRENT_STREAMS > 0);
    assert!(DEFAULT_MAX_CONCURRENT_CONNECTIONS > 0);
}

#[test]
fn limits_of_a_server_have_their_values() {
    assert_eq!(DEFAULT_MAX_CONCURRENT_STREAMS, 256);
    assert_eq!(DEFAULT_MAX_CONCURRENT_CONNECTIONS, 1024);
    assert_eq!(RPC_STREAM_READ_LIMIT, 8_388_608);
    assert_eq!(CLOSE_NO_HANDLER, 1);
}

fn registry() -> MethodRegistry<&'static str, &'static str> {
    let mut reg = MethodRegistry::new();
    reg.register("tolki:hello@1.0.0/test/echo", "echo-1.0");
    reg.register("tolki:hello@1.1.0/test/echo", "echo-1.1");
    reg.register_streaming("tolki:hello@1.0.0/test/chat", "chat");
    reg
}

fn echo_registry() -> MethodRegistry<&'static str, &'static str> {
    let mut reg = MethodRegistry::new();
    reg.register("test:hello@1.0.0/test/echo", "echo");
    reg
}

/// A whole call: the request frame, its dispatch, a handler that echoes, and the answer.
fn echo_call(
    reg: &MethodRegistry<&'static str, &'static str>,
    name: &str,
    payload: &[u8],
) -> Result<Vec<u8>, RpcError> {
    let frame = build_unary_request_frame(name, payload).expect("frame");
    assert!(matches!(handle_inbound_substream(frame[0]), Opening::Unary));
    let reply = match handle_unary_stream_with_opcode_consumed(&frame[1..], reg) {
        UnaryStep::Invoke { handler, payload } => {
            assert_eq!(*handler, "echo");
            answer_unary(Ok(payload))
        }
        UnaryStep::Reply(reply) => reply,
    };
    decode_response_frame(&reply)
}

#[test]
fn serve_twice_errors_with_already_serving() {
    let registry = MethodRegistry::<&str, &str>::new();
    let mut server = RpcServer::new(Arc::new(registry));
    assert_eq!(server.registered_alpn_count(), 0);
    assert_eq!(server.serve(1), Ok(()));
    assert_eq!(server.registered_alpn_count(), 1);
    assert_eq!(server.serve(2), Err(RpcError::AlreadyServing));
    assert_eq!(server.registered_alpn_count(), 1);
    assert_eq!(
        server.route_connection(ALPN_NERW_RPC_1_0_0),
        ConnectionRoute::Handler(1)
    );
}

#[test]
fn accept_loop_dispatches_by_alpn() {
    let mut server = RpcServer::new(Arc::new(echo_registry()));
    server.register_alpn_handler(ALPN_TOLKI_DATAGRAM_2_0_0, 7);
    assert_eq!(server.serve(1), Ok(()));
    assert_eq!(server.registered_alpn_count(), 2);
    assert_eq!(
        server.route_connection(ALPN_NERW_RPC_1_0_0),
        ConnectionRoute::Handler(1)
    );
    assert_eq!(
        server.route_connection(ALPN_TOLKI_DATAGRAM_2_0_0),
        ConnectionRoute::Handler(7)
    );
    assert_eq!(
        echo_call(server.registry(), "test:hello@1.0.0/test/echo", b"WIRE-ALPN"),
        Ok(b"WIRE-ALPN".to_vec())
    );
}

#[test]
fn protocols_are_counted_once() {
    let mut server = RpcServer::with_config(
        Arc::new(registry()),
        RpcServerConfig {
            max_concurrent_streams: 2,
            max_concurrent_connections: 3,
        },
    );
    assert_eq!(server.config().max_concurrent_streams, 2);
    assert_eq!(server.config().max_concurrent_connections, 3);
    server.register_alpn_handler(ALPN_TOLKI_DATAGRAM_2_0_0, 7);
    assert_eq!(server.registered_alpn_count(), 1);
    server.register_alpn_handler(ALPN_TOLKI_DATAGRAM_2_0_0, 8);
    assert_eq!(server.registered_alpn_count(), 1);
    assert_eq!(
        server.route_connection(ALPN_TOLKI_DATAGRAM_2_0_0),
        ConnectionRoute::Handler(8)
    );
    assert_eq!(
        server.route_connection(b"other/1"),
        ConnectionRoute::Close(1)
    );
    server.register_alpn_handler(ALPN_NERW_RPC_1_0_0, 9);
    assert_eq!(server.registered_alpn_count(), 2);
    assert_eq!(server.serve(1), Ok(()));
    assert_eq!(server.registered_alpn_count(), 2);
    assert_eq!(
        server.route_connection(ALPN_NERW_RPC_1_0_0),
        ConnectionRoute::Handler(1)
    );
    assert_eq!(server.registry().len(), 3);
}

#[test]
fn connections_are_numbered_from_one() {
    let mut handler = WireDispatchHandler::new();
    assert_eq!(handler.number_connection(), 1);
    assert_eq!(handler.number_connection(), 2);
    assert_eq!(handler.number_connection(), 3);
}

#[test]
fn first_byte_decides() {
    assert!(matches!(handle_inbound_substream(0x00), Opening::Unary));
    assert!(matches!(handle_inbound_substream(0x10), Opening::Streaming));
    for opcode in [0x01, 0x02, 0x11, 0x20, 0x40, 0xff] {
        match handle_inbound_substream(opcode) {
            Opening::Refused(reply) => assert_eq!(
                decode_response_frame(&reply),
                Err(RpcError::MalformedFrame(format!(
                    "expected unary-request (0x00) or streaming-open (0x10), got 0x{opcode:02x}"
                )))
            ),
            _ => panic!("0x{opcode:02x} must be refused"),
        }
    }
}

#[test]
fn requests_reach_their_handlers() {
    let reg = registry();
    let frame = build_unary_request_frame("tolki:hello@1.0.0/test/echo", b"HI").expect("frame");
    assert_eq!(dispatch_unary(&frame, &reg), Ok((&"echo-1.0", &b"HI"[..])));
    let frame = build_unary_request_frame("tolki:hello/test/echo", b"").expect("frame");
    assert_eq!(dispatch_unary(&frame, &reg), Ok((&"echo-1.1", &b""[..])));
}

#[test]
fn unknown_method_returns_typed_error() {
    let reg = echo_registry();
    let name = "test:nonexistent@1.0.0/iface/method";
    assert_eq!(
        echo_call(&reg, name, b"PAYLOAD"),
        Err(RpcError::UnknownMethod(name.to_owned()))
    );
    let frame = build_unary_request_frame(name, b"PAYLOAD").expect("frame");
    assert_eq!(
        dispatch_unary(&frame, &reg),
        Err(RpcError::UnknownMethod(name.to_owned()))
    );
}

#[test]
fn streaming_methods_are_unknown_to_unary_calls() {
    let reg = registry();
    let frame = build_unary_request_frame("tolki:hello@1.0.0/test/chat", b"").expect("frame");
    assert_eq!(
        dispatch_unary(&frame, &reg),
        Err(RpcError::UnknownMethod(
            "tolki:hello@1.0.0/test/chat".to_owned()
        ))
    );
}

#[test]
fn malformed_inbound_does_not_crash_server() {
    let reg = echo_registry();
    let garbage = [0x99, 0xFF, 0xAA, 0xBB];
    match handle_inbound_substream(garbage[0]) {
        Opening::Refused(reply) => {
            assert_eq!(reply[0], 0x02);
            assert!(matches!(
                decode_response_frame(&reply),
                Err(RpcError::MalformedFrame(_))
            ));
        }
        _ => panic!("0x99 opens nothing"),
    }
    assert_eq!(
        dispatch_unary(&garbage, &reg),
        Err(RpcError::MalformedFrame(
            "expected unary-request opcode 0x00, got 0x99".to_owned()
        ))
    );
    assert_eq!(
        echo_call(&reg, "test:hello@1.0.0/test/echo", b"AFTER-GARBAGE"),
        Ok(b"AFTER-GARBAGE".to_vec())
    );
}

#[test]
fn malformed_requests_are_answered() {
    let reg = registry();
    assert_eq!(
        dispatch_unary(&[], &reg),
        Err(RpcError::MalformedFrame("empty request frame".to_owned()))
    );
    assert_eq!(
        dispatch_unary(&[0xff, 0xff], &reg),
        Err(RpcError::MalformedFrame(
            "expected unary-request opcode 0x00, got 0xff".to_owned()
        ))
    );
    assert_eq!(
        dispatch_unary(&[0x00], &reg),
        Err(RpcError::MalformedFrame(
            "leb128 read: failed to fill whole buffer".to_owned()
        ))
    );
    for tail in [&b""[..], &b"\x05ab"[..], &b"\x02\xff\xfe"[..], &[0xff; 20][..]] {
        match handle_unary_stream_with_opcode_consumed(tail, &reg) {
            UnaryStep::Reply(reply) => assert!(matches!(
                decode_response_frame(&reply),
                Err(RpcError::MalformedFrame(_))
            )),
            UnaryStep::Invoke { .. } => panic!("no request"),
        }
    }
}

#[test]
fn unary_rpc_roundtrip() {
    let reg = echo_registry();
    assert_eq!(
        echo_call(&reg, "test:hello@1.0.0/test/echo", b"PAYLOAD"),
        Ok(b"PAYLOAD".to_vec())
    );
}

#[test]
fn streaming_preserves_unary_path() {
    let mut reg = echo_registry();
    reg.register_streaming("nerw:test@1.0.0/echo/loop", "loop");
    assert_eq!(
        echo_call(&reg, "test:hello@1.0.0/test/echo", b"UNARY-PAYLOAD"),
        Ok(b"UNARY-PAYLOAD".to_vec())
    );
}

#[test]
fn handler_returns_error_propagates() {
    let mut reg = MethodRegistry::<&str, &str>::new();
    reg.register("test:hello@1.0.0/test/fail", "fail");
    let frame = build_unary_request_frame("test:hello@1.0.0/test/fail", b"").expect("frame");
    assert_eq!(dispatch_unary(&frame, &reg), Ok((&"fail", &b""[..])));
    let reply = answer_unary(Err(RpcError::Handler(
        "domain failure: invalid input".to_owned(),
    )));
    assert_eq!(
        decode_response_frame(&reply),
        Err(RpcError::Handler(
            "domain failure: invalid input".to_owned()
        ))
    );
}

#[test]
fn large_payload_1mb_roundtrip() {
    let payload = vec![0xAB; 1024 * 1024];
    let reg = echo_registry();
    assert_eq!(
        echo_call(&reg, "test:hello@1.0.0/test/echo", &payload),
        Ok(payload)
    );
}

#[test]
fn response_bytes_are_exact() {
    assert_eq!(write_response(b"ab"), b"\x01ab");
    assert_eq!(
        write_error(&RpcError::UnknownMethod("m".to_owned())),
        b"\x02\x00\x01m"
    );
}

#[test]
fn inbound_context_carries_the_connection() {
    let remote = NodeId::from_secret(&[5u8; 32]);
    let ctx = build_inbound_context(remote, Some(1_700_000_000_123), 987_654, 3, 8, 21);
    assert_eq!(ctx.peer.node_id, remote);
    assert_eq!(ctx.peer.connection_id, 3);
    assert_eq!(ctx.peer.stream_id, 8);
    assert_eq!(ctx.peer.alpn, b"nerw/rpc/1.0.0");
    assert_eq!(ctx.peer.handshake_at_ms, 1_700_000_000_123);
    assert_eq!(ctx.timing.received_at_ms, 1_700_000_000_123);
    assert_eq!(ctx.timing.received_at_monotonic_ns, 987_654);
    assert_eq!(ctx.timing.frame_decode_duration_us, 21);
    assert!(ctx.auth.is_none());
    assert!(ctx.session.is_none());
    assert_ne!(ctx.tracing.trace_id, 0);
}

#[test]
fn clocks_that_do_not_fit_are_cut() {
    let remote = NodeId::from_secret(&[5u8; 32]);
    let ctx = build_inbound_context(remote, None, u128::MAX, 0, 0, 0);
    assert_eq!(ctx.timing.received_at_ms, 0);
    assert_eq!(ctx.timing.received_at_monotonic_ns, u64::MAX);
    let ctx = build_inbound_context(remote, Some(u128::MAX), 0, 0, 0, 0);
    assert_eq!(ctx.timing.received_at_ms, 0);
    let ctx = build_inbound_context(remote, Some(i64::MAX as u128), 0, 0, 0, 0);
    assert_eq!(ctx.timing.received_at_ms, i64::MAX);
    assert_eq!(saturate(7), 7);
    assert_eq!(saturate(u64::MAX as u128), u64::MAX);
    assert_eq!(saturate(u64::MAX as u128 + 1), u64::MAX);
}

fn open(method_name: &str) -> StreamingFrame {
    StreamingFrame::OpenRequest(StreamingOpenRequest {
        method_name: method_name.to_owned(),
        request_id: 99,
    })
}

fn bytes_of(frame: StreamingFrame) -> Vec<u8> {
    let mut buf = vec![];
    write_frame(&mut buf, &frame);
    buf
}

#[test]
fn openings_are_acknowledged() {
    let reg = registry();
    for name in ["tolki:hello@1.0.0/test/chat", "tolki:hello/test/chat"] {
        match streaming_negotiate_open(Ok(open(name)), &reg) {
            OpenStep::Accept { handler, reply } => {
                assert_eq!(*handler, "chat");
                assert_eq!(
                    reply,
                    bytes_of(StreamingFrame::OpenResponse(StreamingOpenResponse {
                        status: StreamingOpenStatus::Accepted,
                        request_id: 99,
                    }))
                );
            }
            _ => panic!("{name} must be accepted"),
        }
    }
}

#[test]
fn streaming_unknown_method_returns_clear_error() {
    let reg = MethodRegistry::<&str, &str>::new();
    match streaming_negotiate_open(Ok(open("nerw:nope@1.0.0/iface/method")), &reg) {
        OpenStep::Refuse { reply } => assert_eq!(
            reply,
            bytes_of(StreamingFrame::OpenResponse(StreamingOpenResponse {
                status: StreamingOpenStatus::Refused(
                    "unknown streaming method: nerw:nope@1.0.0/iface/method".to_owned()
                ),
                request_id: 99,
            }))
        ),
        _ => panic!("there is no such method"),
    }
}

#[test]
fn openings_of_unknown_methods_are_refused() {
    let reg = registry();
    for name in ["nerw:nope@1.0.0/x/y", "tolki:hello@1.0.0/test/echo", "junk"] {
        match streaming_negotiate_open(Ok(open(name)), &reg) {
            OpenStep::Refuse { reply } => assert_eq!(
                reply,
                bytes_of(StreamingFrame::OpenResponse(StreamingOpenResponse {
                    status: StreamingOpenStatus::Refused(format!(
                        "unknown streaming method: {name}"
                    )),
                    request_id: 99,
                }))
            ),
            _ => panic!("{name} must be refused"),
        }
    }
}

#[test]
fn failed_openings_are_answered_with_a_terminal_error() {
    let reg = registry();
    let cases = [
        (
            Err(RpcError::MalformedFrame("x".to_owned())),
            "malformed wire frame: x",
        ),
        (
            Err(RpcError::TransportRead {
                reason: "streaming payload body: closed stream".to_owned(),
            }),
            "transport: read failed: streaming payload body: closed stream",
        ),
        (
            Ok(StreamingFrame::RequestEnd),
            "malformed wire frame: expected open-request body, got RequestEnd",
        ),
        (
            Ok(StreamingFrame::RequestChunk(b"ab".to_vec())),
            "malformed wire frame: expected open-request body, got RequestChunk(b\"ab\")",
        ),
    ];
    for (opening, message) in cases {
        match streaming_negotiate_open(opening, &reg) {
            OpenStep::Refuse { reply } => assert_eq!(
                reply,
                bytes_of(StreamingFrame::Error(StreamingError {
                    message: message.to_owned(),
                    terminal: true,
                }))
            ),
            OpenStep::Accept { .. } => panic!("no opening"),
        }
    }
}

#[test]
fn chunks_are_forwarded_until_the_end() {
    let step = pump_inbound_requests(Ok(Some(StreamingFrame::RequestChunk(b"abc".to_vec()))));
    assert_eq!(step.forward, Some(Ok(b"abc".to_vec())));
    assert!(!step.done);
    let step = pump_inbound_requests(Ok(Some(StreamingFrame::RequestEnd)));
    assert_eq!(step.forward, None);
    assert!(step.done);
}

#[test]
fn streaming_client_drops_sender_signals_end() {
    for last in [Some(StreamingFrame::RequestEnd), None] {
        let mut seen = vec![];
        for chunk in ["c1", "c2", "c3"] {
            let frame = StreamingFrame::RequestChunk(chunk.as_bytes().to_vec());
            let step = pump_inbound_requests(Ok(Some(frame)));
            assert!(!step.done);
            seen.push(step.forward.expect("a chunk").expect("no error"));
        }
        assert_eq!(seen, [b"c1", b"c2", b"c3"]);
        let step = pump_inbound_requests(Ok(last));
        assert_eq!(step.forward, None);
        assert!(step.done);
    }
    let (_, frame) = ResponseSide::new().exit(HandlerExit::Finished);
    assert_eq!(frame, Some(bytes_of(StreamingFrame::ResponseEnd)));
}

#[test]
fn client_errors_reach_the_handler() {
    for terminal in [false, true] {
        let step = pump_inbound_requests(Ok(Some(StreamingFrame::Error(StreamingError {
            message: "gave up".to_owned(),
            terminal,
        }))));
        assert_eq!(
            step.forward,
            Some(Err(RpcError::Handler("gave up".to_owned())))
        );
        assert_eq!(step.done, terminal);
    }
    let lost = RpcError::TransportRead {
        reason: "reset".to_owned(),
    };
    let step = pump_inbound_requests(Err(lost.clone()));
    assert_eq!(step.forward, Some(Err(lost)));
    assert!(step.done);
}

fn unexpected(frame: StreamingFrame) -> String {
    let step = pump_inbound_requests(Ok(Some(frame)));
    assert!(step.done);
    match step.forward {
        Some(Err(RpcError::MalformedFrame(msg))) => msg,
        other => panic!("expected MalformedFrame, got {other:?}"),
    }
}

#[test]
fn frames_out_of_place_are_named() {
    let prefix = "unexpected client\u{2192}server frame: ";
    assert_eq!(
        unexpected(StreamingFrame::ResponseEnd),
        format!("{prefix}ResponseEnd")
    );
    let again = open("a\"b@1/\u{436}/c\n");
    let text = format!("{again:?}");
    assert_eq!(unexpected(again), format!("{prefix}{text}"));
    for chunk in [
        b"plain".to_vec(),
        b"\n\r\t\0\"\\'".to_vec(),
        (0..=255u8).collect(),
        vec![],
    ] {
        let shown = bytes::Bytes::from(chunk.clone());
        assert_eq!(
            unexpected(StreamingFrame::ResponseChunk(chunk)),
            format!("{prefix}ResponseChunk({shown:?})")
        );
    }
    assert_eq!(
        unexpected(StreamingFrame::OpenResponse(StreamingOpenResponse {
            status: StreamingOpenStatus::Accepted,
            request_id: 4,
        })),
        format!("{prefix}OpenResponse(StreamingOpenResponse {{ status: Ok, request_id: 4 }})")
    );
    assert_eq!(
        unexpected(StreamingFrame::OpenResponse(StreamingOpenResponse {
            status: StreamingOpenStatus::Refused("no".to_owned()),
            request_id: 5,
        })),
        format!(
            "{prefix}OpenResponse(StreamingOpenResponse {{ status: Err(\"no\"), request_id: 5 }})"
        )
    );
}

#[test]
fn items_become_frames() {
    assert_eq!(
        drain_handler_responses(Ok(b"xy".to_vec())),
        (bytes_of(StreamingFrame::ResponseChunk(b"xy".to_vec())), false)
    );
    assert_eq!(
        drain_handler_responses(Err(RpcError::Handler("boom".to_owned()))),
        (
            bytes_of(StreamingFrame::Error(StreamingError {
                message: "handler error: boom".to_owned(),
                terminal: true,
            })),
            true
        )
    );
}

#[test]
fn exits_become_frames() {
    assert_eq!(
        finalise_streaming(HandlerExit::Finished),
        bytes_of(StreamingFrame::ResponseEnd)
    );
    assert_eq!(
        finalise_streaming(HandlerExit::Failed(RpcError::UnknownMethod("m".to_owned()))),
        bytes_of(StreamingFrame::Error(StreamingError {
            message: "unknown method: m".to_owned(),
            terminal: true,
        }))
    );
    assert_eq!(
        finalise_streaming(HandlerExit::Lost("task 7 panicked".to_owned())),
        bytes_of(StreamingFrame::Error(StreamingError {
            message: "streaming handler join failure: task 7 panicked".to_owned(),
            terminal: true,
        }))
    );
}

#[test]
fn streaming_echo_roundtrips_n_messages() {
    let mut side = ResponseSide::new();
    for i in 1..=5u8 {
        let chunk = format!("hello-{i}").into_bytes();
        let step = pump_inbound_requests(Ok(Some(StreamingFrame::RequestChunk(chunk.clone()))));
        let request = step.forward.expect("a chunk");
        assert!(side.may_send());
        let (next, frame) = side.item(request);
        assert_eq!(frame, Some(bytes_of(StreamingFrame::ResponseChunk(chunk))));
        side = next;
    }
    assert!(pump_inbound_requests(Ok(Some(StreamingFrame::RequestEnd))).done);
    let (_, frame) = side.exit(HandlerExit::Finished);
    assert_eq!(frame, Some(bytes_of(StreamingFrame::ResponseEnd)));
}

#[test]
fn nothing_is_sent_after_the_end() {
    let (side, frame) = ResponseSide::new().exit(HandlerExit::Finished);
    assert_eq!(frame, Some(bytes_of(StreamingFrame::ResponseEnd)));
    assert!(!side.may_send());
    let (side, frame) = side.item(Ok(b"late".to_vec()));
    assert_eq!(frame, None);
    let (_, frame) = side.exit(HandlerExit::Finished);
    assert_eq!(frame, None);
}

#[test]
fn streaming_mid_stream_server_error_propagates() {
    let mut side = ResponseSide::new();
    for chunk in [&b"chunk-1"[..], &b"chunk-2"[..]] {
        let (next, frame) = side.item(Ok(chunk.to_vec()));
        assert_eq!(
            frame,
            Some(bytes_of(StreamingFrame::ResponseChunk(chunk.to_vec())))
        );
        side = next;
    }
    let (side, frame) = side.item(Err(RpcError::Handler(
        "simulated mid-stream failure".to_owned(),
    )));
    assert_eq!(
        frame,
        Some(bytes_of(StreamingFrame::Error(StreamingError {
            message: "handler error: simulated mid-stream failure".to_owned(),
            terminal: true,
        })))
    );
    assert!(!side.may_send());
    let (side, frame) = side.item(Ok(b"late".to_vec()));
    assert_eq!(frame, None);
    let (_, frame) = side.exit(HandlerExit::Finished);
    assert_eq!(frame, None);
}

#[test]
fn nothing_is_sent_after_a_failed_write() {
    let (side, frame) = ResponseSide::new().item(Ok(b"1".to_vec()));
    assert!(frame.is_some());
    let side = side.write_failed();
    assert!(!side.may_send());
    let (side, frame) = side.item(Ok(b"2".to_vec()));
    assert_eq!(frame, None);
    let (_, frame) = side.exit(HandlerExit::Finished);
    assert_eq!(frame, None);
}
