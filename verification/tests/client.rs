//! Responses as the caller sees them, and the steps of a unary call.
use nerw_rpc::client::{
    decode_response_frame, is_transport_io_error, CallEvent, CallStage, CallStep, UnaryCall,
    RPC_RESPONSE_READ_LIMIT,
};
use nerw_rpc::codec::CodecError;
use nerw_rpc::error::{RpcError, RpcResult};
use nerw_rpc::server::{build_unary_request_frame, write_error, write_response};
use nerw_rpc::wire::{OPCODE_UNARY_ERROR, OPCODE_UNARY_REQUEST, OPCODE_UNARY_RESPONSE};
use nerw_rpc::wire_error::WireError;

fn build_buf(prefix: u8, body: &[u8]) -> Vec<u8> {
    let mut v = Vec::with_capacity(1 + body.len());
    v.push(prefix);
    v.extend_from_slice(body);
    v
}

#[test]
fn decode_response_frame_success() {
    let buf = build_buf(OPCODE_UNARY_RESPONSE, b"OK-PAYLOAD");
    let decoded = decode_response_frame(&buf).expect("decode ok");
    assert_eq!(&decoded[..], b"OK-PAYLOAD");
}

#[test]
fn decode_response_frame_error_handler() {
    let body = WireError::HandlerError {
        display: "some handler failure".to_owned(),
    }
    .to_bytes();
    let buf = build_buf(OPCODE_UNARY_ERROR, &body);
    let err = decode_response_frame(&buf).expect_err("must error");
    match err {
        RpcError::Handler(_) => {}
        other => panic!("expected RpcError::Handler, got {other:?}"),
    }
}

#[test]
fn decode_response_frame_error_unknown_method() {
    let body = WireError::UnknownMethod {
        method_name: "tolki:nope@1.0.0/iface/method".to_owned(),
    }
    .to_bytes();
    let buf = build_buf(OPCODE_UNARY_ERROR, &body);
    let err = decode_response_frame(&buf).expect_err("must error");
    match err {
        RpcError::UnknownMethod(name) => {
            assert_eq!(name, "tolki:nope@1.0.0/iface/method");
        }
        other => panic!("expected RpcError::UnknownMethod, got {other:?}"),
    }
}

#[test]
fn decode_response_frame_error_version_mismatch() {
    let body = WireError::VersionMismatch {
        requested: "9.9.9".to_owned(),
        available: vec!["1.0.0".to_owned(), "2.0.0".to_owned()],
    }
    .to_bytes();
    let buf = build_buf(OPCODE_UNARY_ERROR, &body);
    let err = decode_response_frame(&buf).expect_err("must error");
    match err {
        RpcError::VersionMismatch {
            requested,
            available,
        } => {
            assert_eq!(requested, "9.9.9");
            assert_eq!(available, vec!["1.0.0".to_owned(), "2.0.0".to_owned()]);
        }
        other => panic!("expected RpcError::VersionMismatch, got {other:?}"),
    }
}

#[test]
fn decode_response_frame_empty_buffer() {
    let err = decode_response_frame(&[]).expect_err("empty buffer must error");
    assert!(matches!(err, RpcError::MalformedFrame(_)));
}

#[test]
fn decode_response_frame_unexpected_opcode() {
    let buf = build_buf(OPCODE_UNARY_REQUEST, &[0xAA, 0xBB]);
    let err = decode_response_frame(&buf).expect_err("must error");
    let s = err.to_string();
    assert!(s.contains("unexpected response opcode"));
}

#[test]
fn response_messages_are_exact() {
    assert_eq!(
        decode_response_frame(&[]),
        Err(RpcError::MalformedFrame("empty response frame".to_owned()))
    );
    assert_eq!(
        decode_response_frame(&[0x0a]),
        Err(RpcError::MalformedFrame(
            "unexpected response opcode 0x0a".to_owned()
        ))
    );
    assert_eq!(
        decode_response_frame(&[0xff, 1, 2]),
        Err(RpcError::MalformedFrame(
            "unexpected response opcode 0xff".to_owned()
        ))
    );
    assert_eq!(decode_response_frame(&[0x01]), Ok(vec![]));
}

#[test]
fn undecodable_error_body_is_a_codec_error() {
    assert_eq!(
        decode_response_frame(&[OPCODE_UNARY_ERROR]),
        Err(RpcError::Codec(CodecError::DeserializeUnexpectedEnd))
    );
    assert_eq!(
        decode_response_frame(&[OPCODE_UNARY_ERROR, 6]),
        Err(RpcError::Codec(CodecError::SerdeDeCustom))
    );
    assert_eq!(
        decode_response_frame(&[OPCODE_UNARY_ERROR, 0, 2, 0xff, 0xfe]),
        Err(RpcError::Codec(CodecError::DeserializeBadUtf8))
    );
}

#[test]
fn responses_survive_the_wire() {
    assert_eq!(
        decode_response_frame(&write_response(b"\x00\x01payload")),
        Ok(b"\x00\x01payload".to_vec())
    );
    let refused = [
        RpcError::UnknownMethod("a@1/b/c".to_owned()),
        RpcError::InvalidMethodName("nonsense".to_owned()),
        RpcError::MalformedFrame("short".to_owned()),
        RpcError::Handler("no such user".to_owned()),
        RpcError::VersionMismatch {
            requested: "2".to_owned(),
            available: vec![],
        },
    ];
    for err in refused {
        assert_eq!(decode_response_frame(&write_error(&err)), Err(err));
    }
}

fn all_errors() -> Vec<RpcError> {
    vec![
        RpcError::Codec(CodecError::DeserializeBadBool),
        RpcError::MalformedFrame("m".to_owned()),
        RpcError::UnknownMethod("u".to_owned()),
        RpcError::InvalidMethodName("i".to_owned()),
        RpcError::VersionMismatch {
            requested: "r".to_owned(),
            available: vec!["a".to_owned()],
        },
        RpcError::Handler("h".to_owned()),
        RpcError::TransportOpenSubstream {
            node_id: "n".to_owned(),
            reason: "r".to_owned(),
        },
        RpcError::TransportRegisterAlpn {
            alpn: "a".to_owned(),
            reason: "r".to_owned(),
        },
        RpcError::DatagramTokenCollision { token: 1 },
        RpcError::DatagramTokenUnknown { token: 1 },
        RpcError::DatagramStreamIdCollision { stream_id: 1 },
        RpcError::DatagramStreamIdUnknown { stream_id: 1 },
        RpcError::DatagramTooShort { len: 1 },
        RpcError::AlreadyServing,
    ]
}

#[test]
fn only_broken_streams_are_transport_io_errors() {
    assert!(is_transport_io_error(&RpcError::TransportRead {
        reason: "r".to_owned()
    }));
    assert!(is_transport_io_error(&RpcError::TransportWrite {
        reason: "w".to_owned()
    }));
    for err in all_errors() {
        assert!(!is_transport_io_error(&err), "{err:?}");
    }
}

fn start() -> UnaryCall {
    UnaryCall::start("peer-7", "a:b@1.0.0/c/d", b"req").expect("start")
}

fn advance(call: UnaryCall) -> UnaryCall {
    match call.step(CallEvent::Done) {
        CallStep::Next(next) => next,
        CallStep::Over { .. } => panic!("the call must go on"),
    }
}

fn over(step: CallStep) -> (RpcResult<Vec<u8>>, bool) {
    match step {
        CallStep::Over { result, evict } => (result, evict),
        CallStep::Next(_) => panic!("the call must be over"),
    }
}

#[test]
fn unary_call_runs_through_its_stages() {
    let call = start();
    assert_eq!(call.stage(), CallStage::Opening);
    assert_eq!(
        call.frame().to_vec(),
        build_unary_request_frame("a:b@1.0.0/c/d", b"req").expect("frame")
    );
    let call = advance(call);
    assert_eq!(call.stage(), CallStage::Writing);
    assert_eq!(call.frame()[0], OPCODE_UNARY_REQUEST);
    let call = advance(call);
    assert_eq!(call.stage(), CallStage::Finishing);
    let call = advance(call);
    assert_eq!(call.stage(), CallStage::Reading);
    let (result, evict) = over(call.step(CallEvent::Received(write_response(b"resp"))));
    assert_eq!(result, Ok(b"resp".to_vec()));
    assert!(!evict);
}

#[test]
fn failed_stages_give_their_errors() {
    let (result, evict) = over(start().step(CallEvent::Failed("no route".to_owned())));
    assert_eq!(
        result,
        Err(RpcError::TransportOpenSubstream {
            node_id: "peer-7".to_owned(),
            reason: "no route".to_owned(),
        })
    );
    assert!(!evict);

    let (result, evict) = over(advance(start()).step(CallEvent::Failed("reset".to_owned())));
    assert_eq!(
        result,
        Err(RpcError::TransportWrite {
            reason: "write_all: reset".to_owned()
        })
    );
    assert!(evict);

    let finishing = advance(advance(start()));
    let (result, evict) = over(finishing.step(CallEvent::Failed("closed stream".to_owned())));
    assert_eq!(
        result,
        Err(RpcError::TransportWrite {
            reason: "finish: closed stream".to_owned()
        })
    );
    assert!(evict);

    let reading = advance(advance(advance(start())));
    let (result, evict) = over(reading.step(CallEvent::Failed("connection lost".to_owned())));
    assert_eq!(
        result,
        Err(RpcError::TransportRead {
            reason: "read_to_end: connection lost".to_owned()
        })
    );
    assert!(evict);
}

#[test]
fn error_responses_do_not_evict() {
    for err in all_errors() {
        let reading = advance(advance(advance(start())));
        let (result, evict) = over(reading.step(CallEvent::Received(write_error(&err))));
        assert!(result.is_err());
        assert!(!evict);
    }
    let reading = advance(advance(advance(start())));
    let (result, evict) = over(reading.step(CallEvent::Received(vec![])));
    assert!(result.is_err());
    assert!(!evict);
}

#[test]
fn response_limit_is_eight_mebibytes() {
    assert_eq!(RPC_RESPONSE_READ_LIMIT, 8_388_608);
}
