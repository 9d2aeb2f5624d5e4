//! Error envelopes.
use nerw_rpc::codec::CodecError;
use nerw_rpc::error::RpcError;
use nerw_rpc::wire_error::{
    WireError, WIRE_ERROR_CODEC, WIRE_ERROR_HANDLER_ERROR, WIRE_ERROR_INVALID_METHOD_NAME,
    WIRE_ERROR_MALFORMED_FRAME, WIRE_ERROR_UNKNOWN_METHOD, WIRE_ERROR_VERSION_MISMATCH,
};

#[test]
fn unknown_method_roundtrip_via_postcard() {
    let original = WireError::UnknownMethod {
        method_name: "tolki:nope@1.0.0/iface/method".to_owned(),
    };
    let bytes = original.to_bytes();
    // Discriminant byte must be 0x00, locale-independent.
    assert_eq!(bytes[0], WIRE_ERROR_UNKNOWN_METHOD);
    let decoded = WireError::from_bytes(&bytes).expect("decode");
    assert_eq!(decoded, original);
}

#[test]
fn version_mismatch_preserves_metadata() {
    let original = WireError::VersionMismatch {
        requested: "2.0.0".to_owned(),
        available: vec!["1.0.0".to_owned(), "1.1.0".to_owned()],
    };
    let bytes = original.to_bytes();
    assert_eq!(bytes[0], WIRE_ERROR_VERSION_MISMATCH);
    let decoded = WireError::from_bytes(&bytes).expect("decode");
    match decoded {
        WireError::VersionMismatch {
            requested,
            available,
        } => {
            assert_eq!(requested, "2.0.0");
            assert_eq!(available, vec!["1.0.0".to_owned(), "1.1.0".to_owned()]);
        }
        other => panic!("expected VersionMismatch, got {other:?}"),
    }
}

#[test]
fn invalid_method_name_roundtrip() {
    let original = WireError::InvalidMethodName {
        input: "not-a-valid-name".to_owned(),
    };
    let bytes = original.to_bytes();
    assert_eq!(bytes[0], WIRE_ERROR_INVALID_METHOD_NAME);
    let decoded = WireError::from_bytes(&bytes).expect("decode");
    assert_eq!(decoded, original);
}

#[test]
fn malformed_frame_roundtrip() {
    let original = WireError::MalformedFrame {
        reason: "truncated buffer".to_owned(),
    };
    let bytes = original.to_bytes();
    assert_eq!(bytes[0], WIRE_ERROR_MALFORMED_FRAME);
    let decoded = WireError::from_bytes(&bytes).expect("decode");
    assert_eq!(decoded, original);
}

#[test]
fn handler_error_roundtrip() {
    let original = WireError::HandlerError {
        display: "domain error: invalid input".to_owned(),
    };
    let bytes = original.to_bytes();
    assert_eq!(bytes[0], WIRE_ERROR_HANDLER_ERROR);
    let decoded = WireError::from_bytes(&bytes).expect("decode");
    assert_eq!(decoded, original);
}

#[test]
fn from_rpc_error_preserves_unknown_method() {
    let rpc_err = RpcError::UnknownMethod("test:foo@1.0.0/i/m".to_owned());
    let wire = WireError::from_rpc_error(&rpc_err);
    match wire {
        WireError::UnknownMethod { method_name } => {
            assert_eq!(method_name, "test:foo@1.0.0/i/m");
        }
        other => panic!("expected UnknownMethod, got {other:?}"),
    }
}

#[test]
fn from_rpc_error_preserves_version_mismatch() {
    let rpc_err = RpcError::VersionMismatch {
        requested: "9.9.9".to_owned(),
        available: vec!["1.0.0".to_owned()],
    };
    let wire = WireError::from_rpc_error(&rpc_err);
    match wire {
        WireError::VersionMismatch {
            requested,
            available,
        } => {
            assert_eq!(requested, "9.9.9");
            assert_eq!(available, vec!["1.0.0".to_owned()]);
        }
        other => panic!("expected VersionMismatch, got {other:?}"),
    }
}

#[test]
fn into_rpc_error_preserves_unknown_method() {
    let wire = WireError::UnknownMethod {
        method_name: "x:y@1.0.0/i/m".to_owned(),
    };
    let rpc = wire.into_rpc_error();
    match rpc {
        RpcError::UnknownMethod(name) => assert_eq!(name, "x:y@1.0.0/i/m"),
        other => panic!("expected UnknownMethod, got {other:?}"),
    }
}

#[test]
fn into_rpc_error_preserves_version_mismatch() {
    let wire = WireError::VersionMismatch {
        requested: "9.9.9".to_owned(),
        available: vec!["1.0.0".to_owned()],
    };
    let rpc = wire.into_rpc_error();
    match rpc {
        RpcError::VersionMismatch {
            requested,
            available,
        } => {
            assert_eq!(requested, "9.9.9");
            assert_eq!(available, vec!["1.0.0".to_owned()]);
        }
        other => panic!("expected VersionMismatch, got {other:?}"),
    }
}

#[test]
fn handler_error_collapses_transport_errors() {
    let rpc_err = RpcError::TransportRead {
        reason: "io closed".to_owned(),
    };
    let wire = WireError::from_rpc_error(&rpc_err);
    match wire {
        WireError::HandlerError { display } => {
            assert!(display.contains("io closed"));
        }
        other => panic!("expected HandlerError, got {other:?}"),
    }
}

#[test]
fn handler_error_no_doubled_prefix() {
    let server_err = RpcError::Handler("domain failure".to_owned());
    let wire_msg = server_err.to_string(); // "handler error: domain failure"
    assert_eq!(wire_msg, "handler error: domain failure");

    let wire_err = WireError::HandlerError { display: wire_msg };
    let client_err = wire_err.into_rpc_error();
    let client_display = client_err.to_string();

    assert_eq!(
        client_display.matches("handler error:").count(),
        1,
        "expected single prefix, got {client_display:?}"
    );
    assert_eq!(client_display, "handler error: domain failure");
}

#[test]
fn handler_error_preserves_payload_without_prefix() {
    let wire_err = WireError::HandlerError {
        display: "raw inner failure".to_owned(),
    };
    let client_err = wire_err.into_rpc_error();
    assert_eq!(client_err.to_string(), "handler error: raw inner failure");
}

#[test]
fn locale_invariance_round_trip() {
    let rpc_err = RpcError::UnknownMethod("неизвестный:метод@1.0.0/иф/м".to_owned());
    let wire = WireError::from_rpc_error(&rpc_err);
    let bytes = wire.to_bytes();
    // The tag is the same whatever the text says.
    assert_eq!(bytes[0], WIRE_ERROR_UNKNOWN_METHOD);
    let decoded = WireError::from_bytes(&bytes).expect("decode");
    let restored = decoded.into_rpc_error();
    match restored {
        RpcError::UnknownMethod(name) => {
            assert_eq!(name, "неизвестный:метод@1.0.0/иф/м");
        }
        other => panic!(
            "Russian-language method name must STILL classify as UnknownMethod, got {other:?}"
        ),
    }
}

#[test]
fn envelopes_are_postcard_enums() {
    let one = "text".to_owned();
    let list = vec!["1".to_owned(), "2".to_owned()];
    let cases = [
        (
            WireError::UnknownMethod {
                method_name: one.clone(),
            },
            postcard::to_allocvec(&(0u32, "text")).expect("encode"),
        ),
        (
            WireError::VersionMismatch {
                requested: one.clone(),
                available: list.clone(),
            },
            postcard::to_allocvec(&(1u32, "text", &list)).expect("encode"),
        ),
        (
            WireError::InvalidMethodName { input: one.clone() },
            postcard::to_allocvec(&(2u32, "text")).expect("encode"),
        ),
        (
            WireError::MalformedFrame {
                reason: one.clone(),
            },
            postcard::to_allocvec(&(3u32, "text")).expect("encode"),
        ),
        (
            WireError::HandlerError {
                display: one.clone(),
            },
            postcard::to_allocvec(&(4u32, "text")).expect("encode"),
        ),
        (
            WireError::Codec { display: one },
            postcard::to_allocvec(&(5u32, "text")).expect("encode"),
        ),
    ];
    for (envelope, bytes) in cases {
        assert_eq!(envelope.to_bytes(), bytes);
        let mut longer = bytes;
        longer.push(0xEE);
        assert_eq!(WireError::from_bytes(&longer), Ok(envelope));
    }
}

#[test]
fn unreadable_envelopes_are_refused() {
    assert_eq!(
        WireError::from_bytes(&[]),
        Err(CodecError::DeserializeUnexpectedEnd)
    );
    assert_eq!(
        WireError::from_bytes(&[6, 0]),
        Err(CodecError::SerdeDeCustom)
    );
    assert_eq!(
        WireError::from_bytes(&[0, 5, b'a']),
        Err(CodecError::DeserializeUnexpectedEnd)
    );
    assert_eq!(
        WireError::from_bytes(&[0xff, 0xff, 0xff, 0xff, 0xff]),
        Err(CodecError::DeserializeBadVarint)
    );
    assert_eq!(
        WireError::from_bytes(&[4, 1, 0x80]),
        Err(CodecError::DeserializeBadUtf8)
    );
    assert_eq!(
        WireError::from_bytes(&[1, 0, 2, 0]),
        Err(CodecError::DeserializeUnexpectedEnd)
    );
}

#[test]
fn codec_errors_arrive_as_handler_errors() {
    let wire = WireError::from_rpc_error(&RpcError::Codec(CodecError::DeserializeBadUtf8));
    assert_eq!(
        wire,
        WireError::Codec {
            display: "Tried to parse invalid utf-8".to_owned()
        }
    );
    assert_eq!(wire.to_bytes()[0], WIRE_ERROR_CODEC);
    assert_eq!(
        wire.into_rpc_error(),
        RpcError::Handler("server codec error: Tried to parse invalid utf-8".to_owned())
    );
}

#[test]
fn internal_errors_arrive_as_handler_errors() {
    for err in [
        RpcError::TransportWrite {
            reason: "reset".to_owned(),
        },
        RpcError::DatagramTooShort { len: 0 },
        RpcError::AlreadyServing,
    ] {
        let text = err.to_string();
        assert_eq!(
            WireError::from_rpc_error(&err).into_rpc_error(),
            RpcError::Handler(text)
        );
    }
}

#[test]
fn only_one_prefix_is_taken_off() {
    let wire = WireError::HandlerError {
        display: "handler error: handler error: twice".to_owned(),
    };
    assert_eq!(
        wire.into_rpc_error(),
        RpcError::Handler("handler error: twice".to_owned())
    );
}
