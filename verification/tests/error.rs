//! How errors read.
use nerw_rpc::codec::{get_u32, CodecError};
use nerw_rpc::error::RpcError;

#[test]
fn unknown_method_displays_name() {
    let err = RpcError::UnknownMethod("foo:bar@1.0.0/iface/m".to_string());
    let s = err.to_string();
    assert!(s.contains("foo:bar@1.0.0/iface/m"));
}

#[test]
fn version_mismatch_displays_both() {
    let err = RpcError::VersionMismatch {
        requested: "2.0.0".to_string(),
        available: vec!["1.0.0".to_string(), "1.1.0".to_string()],
    };
    let s = err.to_string();
    assert!(s.contains("2.0.0"));
    assert!(s.contains("1.0.0"));
}

#[test]
fn codec_error_wraps_postcard() {
    let res = get_u32(&[]);
    let err: RpcError = res.expect_err("decode of empty buffer must fail").into();
    assert!(matches!(err, RpcError::Codec(_)));
}

#[test]
fn transport_open_substream_displays_node_and_reason() {
    let err = RpcError::TransportOpenSubstream {
        node_id: "abc-deadbeef".to_string(),
        reason: "handshake timeout".to_string(),
    };
    let s = err.to_string();
    assert!(s.contains("abc-deadbeef"));
    assert!(s.contains("handshake timeout"));
}

#[test]
fn transport_register_alpn_displays_alpn() {
    let err = RpcError::TransportRegisterAlpn {
        alpn: "tolki/wire-protocol/2.0.0".to_string(),
        reason: "not preregistered".to_string(),
    };
    let s = err.to_string();
    assert!(s.contains("tolki/wire-protocol/2.0.0"));
    assert!(s.contains("not preregistered"));
}

#[test]
fn datagram_token_collision_displays_token() {
    let err = RpcError::DatagramTokenCollision { token: 42 };
    let s = err.to_string();
    assert!(s.contains("42"));
    assert!(s.contains("already registered"));
}

#[test]
fn datagram_token_unknown_displays_token() {
    let err = RpcError::DatagramTokenUnknown { token: 7 };
    let s = err.to_string();
    assert!(s.contains("7"));
    assert!(s.contains("not registered"));
}

#[test]
fn datagram_too_short_displays_len() {
    let err = RpcError::DatagramTooShort { len: 0 };
    let s = err.to_string();
    assert!(s.contains('0'));
    assert!(s.contains("too short"));
}

#[test]
fn every_error_reads_as_written() {
    let cases = [
        (
            RpcError::Codec(CodecError::DeserializeBadBool),
            "codec error: Found a bool that wasn't 0 or 1",
        ),
        (
            RpcError::MalformedFrame("cut".to_owned()),
            "malformed wire frame: cut",
        ),
        (
            RpcError::UnknownMethod("a@1/b/c".to_owned()),
            "unknown method: a@1/b/c",
        ),
        (
            RpcError::InvalidMethodName("x".to_owned()),
            "invalid method-name format: expected `package[@version]/interface/method`, got `x`",
        ),
        (
            RpcError::VersionMismatch {
                requested: "2".to_owned(),
                available: vec![],
            },
            "version mismatch: requested 2, available []",
        ),
        (
            RpcError::VersionMismatch {
                requested: "2".to_owned(),
                available: vec!["1".to_owned(), "a\"b\n".to_owned()],
            },
            "version mismatch: requested 2, available [\"1\", \"a\\\"b\\n\"]",
        ),
        (RpcError::Handler("boom".to_owned()), "handler error: boom"),
        (
            RpcError::TransportOpenSubstream {
                node_id: "n".to_owned(),
                reason: "r".to_owned(),
            },
            "transport: failed to open substream to peer n: r",
        ),
        (
            RpcError::TransportRegisterAlpn {
                alpn: "p".to_owned(),
                reason: "r".to_owned(),
            },
            "transport: failed to register ALPN handler 'p': r",
        ),
        (
            RpcError::TransportRead {
                reason: "r".to_owned(),
            },
            "transport: read failed: r",
        ),
        (
            RpcError::TransportWrite {
                reason: "r".to_owned(),
            },
            "transport: write failed: r",
        ),
        (
            RpcError::DatagramTokenCollision { token: 255 },
            "datagram: token 255 already registered",
        ),
        (
            RpcError::DatagramTokenUnknown { token: 0 },
            "datagram: token 0 not registered",
        ),
        (
            RpcError::DatagramStreamIdCollision { stream_id: 10 },
            "datagram: stream-id 10 already registered",
        ),
        (
            RpcError::DatagramStreamIdUnknown {
                stream_id: u64::MAX,
            },
            "datagram: stream-id 18446744073709551615 not registered",
        ),
        (
            RpcError::DatagramTooShort { len: 3 },
            "datagram: too short (3 bytes), need at least 1 byte for token",
        ),
    ];
    for (err, text) in cases {
        assert_eq!(err.to_string(), text);
    }
    assert!(!RpcError::AlreadyServing.to_string().is_empty());
}

#[test]
fn version_lists_read_like_the_standard_library_writes_them() {
    let lists: [Vec<String>; 4] = [
        vec![],
        vec!["plain".to_owned()],
        vec!["tab\t".to_owned(), "quote'\"".to_owned(), "\u{0}".to_owned()],
        vec!["\u{44f}\u{301}".to_owned(), "\u{200b}".to_owned(), "\\".to_owned()],
    ];
    for available in lists {
        let expected = format!("version mismatch: requested 1, available {available:?}");
        let err = RpcError::VersionMismatch {
            requested: "1".to_owned(),
            available,
        };
        assert_eq!(err.to_string(), expected);
    }
}

#[test]
fn codec_errors_read_like_postcard_errors() {
    let pairs = [
        (CodecError::WontImplement, postcard::Error::WontImplement),
        (
            CodecError::NotYetImplemented,
            postcard::Error::NotYetImplemented,
        ),
        (
            CodecError::SerializeBufferFull,
            postcard::Error::SerializeBufferFull,
        ),
        (
            CodecError::SerializeSeqLengthUnknown,
            postcard::Error::SerializeSeqLengthUnknown,
        ),
        (
            CodecError::DeserializeUnexpectedEnd,
            postcard::Error::DeserializeUnexpectedEnd,
        ),
        (
            CodecError::DeserializeBadVarint,
            postcard::Error::DeserializeBadVarint,
        ),
        (
            CodecError::DeserializeBadBool,
            postcard::Error::DeserializeBadBool,
        ),
        (
            CodecError::DeserializeBadChar,
            postcard::Error::DeserializeBadChar,
        ),
        (
            CodecError::DeserializeBadUtf8,
            postcard::Error::DeserializeBadUtf8,
        ),
        (
            CodecError::DeserializeBadOption,
            postcard::Error::DeserializeBadOption,
        ),
        (
            CodecError::DeserializeBadEnum,
            postcard::Error::DeserializeBadEnum,
        ),
        (
            CodecError::DeserializeBadEncoding,
            postcard::Error::DeserializeBadEncoding,
        ),
        (
            CodecError::DeserializeBadCrc,
            postcard::Error::DeserializeBadCrc,
        ),
        (CodecError::SerdeSerCustom, postcard::Error::SerdeSerCustom),
        (CodecError::SerdeDeCustom, postcard::Error::SerdeDeCustom),
        (
            CodecError::CollectStrError,
            postcard::Error::CollectStrError,
        ),
    ];
    for (ours, theirs) in pairs {
        assert_eq!(ours.to_string(), theirs.to_string());
        assert_eq!(
            RpcError::from(ours).to_string(),
            format!("codec error: {theirs}")
        );
    }
}
