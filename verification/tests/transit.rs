//! Vouchers and frames of the relay protocol.
use nerw_rpc::context::NodeId;
use nerw_rpc::transit::{
    decode_frame, encode_frame, Capabilities, ConnectOutcome, Limits, ReserveOutcome, TransitError,
    TransitFrame, Voucher, DEFAULT_RESERVATION_TTL_SECS, VOUCHER_DOMAIN_TAG,
};

fn relay_secret() -> [u8; 32] {
    [1u8; 32]
}

fn public(secret: &[u8; 32]) -> NodeId {
    NodeId::from_secret(secret)
}

fn peer_public() -> NodeId {
    public(&[2u8; 32])
}

fn make_voucher() -> Voucher {
    Voucher::sign(&relay_secret(), peer_public(), 1_700_000_600)
}

#[test]
fn hello_frame_roundtrip() {
    let frame = TransitFrame::Hello {
        peer_id: peer_public(),
        capabilities: Capabilities::default(),
    };
    let wire = encode_frame(&frame).unwrap();
    let decoded = decode_frame(&wire).unwrap();
    assert_eq!(frame, decoded);
}

#[test]
fn reserve_request_frame_roundtrip() {
    let frame = TransitFrame::ReserveRequest {
        reservee_id: peer_public(),
        signature: vec![9u8; 64],
    };
    let wire = encode_frame(&frame).unwrap();
    assert_eq!(decode_frame(&wire).unwrap(), frame);
}

#[test]
fn reserve_response_granted_roundtrip() {
    let frame = TransitFrame::ReserveResponse(ReserveOutcome::Granted {
        voucher: make_voucher(),
        limits: Limits::default(),
    });
    let wire = encode_frame(&frame).unwrap();
    assert_eq!(decode_frame(&wire).unwrap(), frame);
}

#[test]
fn reserve_response_denied_roundtrip() {
    let frame =
        TransitFrame::ReserveResponse(ReserveOutcome::Denied(TransitError::WhitelistRejected));
    let wire = encode_frame(&frame).unwrap();
    assert_eq!(decode_frame(&wire).unwrap(), frame);
}

#[test]
fn connect_request_with_voucher_roundtrip() {
    let frame = TransitFrame::ConnectRequest {
        target_id: peer_public(),
        voucher: Some(make_voucher()),
    };
    let wire = encode_frame(&frame).unwrap();
    assert_eq!(decode_frame(&wire).unwrap(), frame);
}

#[test]
fn connect_request_without_voucher_roundtrip() {
    let frame = TransitFrame::ConnectRequest {
        target_id: peer_public(),
        voucher: None,
    };
    let wire = encode_frame(&frame).unwrap();
    assert_eq!(decode_frame(&wire).unwrap(), frame);
}

#[test]
fn connect_response_granted_roundtrip() {
    let frame = TransitFrame::ConnectResponse(ConnectOutcome::Granted);
    let wire = encode_frame(&frame).unwrap();
    assert_eq!(decode_frame(&wire).unwrap(), frame);
}

#[test]
fn connect_response_denied_target_not_found_roundtrip() {
    let frame = TransitFrame::ConnectResponse(ConnectOutcome::Denied(TransitError::TargetNotFound));
    let wire = encode_frame(&frame).unwrap();
    assert_eq!(decode_frame(&wire).unwrap(), frame);
}

#[test]
fn bye_with_reason_roundtrip() {
    let frame = TransitFrame::Bye {
        reason: Some("graceful shutdown".to_owned()),
    };
    let wire = encode_frame(&frame).unwrap();
    assert_eq!(decode_frame(&wire).unwrap(), frame);
}

#[test]
fn bye_without_reason_roundtrip() {
    let frame = TransitFrame::Bye { reason: None };
    let wire = encode_frame(&frame).unwrap();
    assert_eq!(decode_frame(&wire).unwrap(), frame);
}

#[test]
fn voucher_sign_then_verify_succeeds() {
    let relay = relay_secret();
    let voucher = Voucher::sign(&relay, peer_public(), 1_700_000_600);
    voucher.verify(&public(&relay)).unwrap();
}

#[test]
fn voucher_verify_against_wrong_relay_fails() {
    let attacker = [99u8; 32];
    let voucher = make_voucher();
    let err = voucher.verify(&public(&attacker)).unwrap_err();
    assert_eq!(err, TransitError::VoucherInvalidSig);
}

#[test]
fn voucher_with_tampered_expiry_fails_verification() {
    let mut voucher = make_voucher();
    voucher.expire_unix_secs = voucher.expire_unix_secs.saturating_add(86_400);
    let err = voucher.verify(&voucher.relay_node_id).unwrap_err();
    assert_eq!(err, TransitError::VoucherInvalidSig);
}

#[test]
fn voucher_with_tampered_peer_id_fails_verification() {
    let mut voucher = make_voucher();
    let attacker = [77u8; 32];
    voucher.peer_node_id = public(&attacker);
    let err = voucher.verify(&voucher.relay_node_id).unwrap_err();
    assert_eq!(err, TransitError::VoucherInvalidSig);
}

#[test]
fn voucher_with_swapped_relay_in_struct_fails_verification() {
    // The key named in the voucher is swapped for another one, and the voucher held
    // against that one: the signature is still the first relay's.
    let mut voucher = make_voucher();
    let fake_relay = [55u8; 32];
    voucher.relay_node_id = public(&fake_relay);
    let err = voucher.verify(&public(&fake_relay)).unwrap_err();
    assert_eq!(err, TransitError::VoucherInvalidSig);
}

#[test]
fn voucher_is_expired_check() {
    let voucher = make_voucher();
    assert!(!voucher.is_expired(voucher.expire_unix_secs.saturating_sub(1)));
    assert!(voucher.is_expired(voucher.expire_unix_secs));
    assert!(voucher.is_expired(voucher.expire_unix_secs.saturating_add(1)));
}

#[test]
fn voucher_signing_bytes_includes_domain_tag() {
    let voucher = make_voucher();
    let bytes = voucher.signing_bytes();
    assert!(
        bytes.starts_with(VOUCHER_DOMAIN_TAG),
        "voucher signing input must begin with the domain-separation tag"
    );
    // Layout: tag || relay_pk(32) || peer_pk(32) || expire_be(8)
    assert_eq!(bytes.len(), VOUCHER_DOMAIN_TAG.len() + 32 + 32 + 8);
}

#[test]
fn voucher_postcard_roundtrip_preserves_signature() {
    let voucher = make_voucher();
    let wire = voucher.to_bytes();
    let decoded = Voucher::from_bytes(&wire).unwrap();
    assert_eq!(decoded, voucher);
    decoded.verify(&voucher.relay_node_id).unwrap();
}

#[test]
fn decode_empty_input_yields_malformed_frame() {
    let err = decode_frame(&[]).unwrap_err();
    assert_eq!(err, TransitError::MalformedFrame);
}

#[test]
fn decode_truncated_input_yields_malformed_frame() {
    let frame = TransitFrame::Hello {
        peer_id: peer_public(),
        capabilities: Capabilities::default(),
    };
    let wire = encode_frame(&frame).unwrap();
    // Drop the last byte: premature end of input.
    let truncated = &wire[..wire.len().saturating_sub(1)];
    let err = decode_frame(truncated).unwrap_err();
    assert_eq!(err, TransitError::MalformedFrame);
}

#[test]
fn decode_trailing_garbage_yields_malformed_frame() {
    let frame = TransitFrame::Bye { reason: None };
    let mut wire = encode_frame(&frame).unwrap();
    wire.push(0xAA);
    let err = decode_frame(&wire).unwrap_err();
    assert_eq!(err, TransitError::MalformedFrame);
}

#[test]
fn decode_random_bytes_yields_malformed_frame() {
    // High-tag byte that doesn't map to any variant.
    let err = decode_frame(&[0xFF, 0xFF, 0xFF]).unwrap_err();
    assert_eq!(err, TransitError::MalformedFrame);
}

#[test]
fn transit_error_display_is_human_readable() {
    let cases = [
        TransitError::WhitelistRejected,
        TransitError::CapacityFull,
        TransitError::VoucherExpired,
        TransitError::VoucherInvalidSig,
        TransitError::TargetNotFound,
        TransitError::MalformedFrame,
        TransitError::UnexpectedFrame,
    ];
    for e in cases {
        let rendered = e.to_string();
        assert!(!rendered.is_empty(), "Display for {e:?} must not be empty");
    }
}

#[derive(Debug)]
struct Shown(TransitError);

impl std::fmt::Display for Shown {
    fn fmt(&self, f: &mut std::fmt::Formatter<'_>) -> std::fmt::Result {
        f.write_str(&self.0.to_string())
    }
}

impl std::error::Error for Shown {}

#[test]
fn transit_error_implements_std_error() {
    fn assert_error<E: std::error::Error>(_e: &E) {}
    assert_error(&Shown(TransitError::CapacityFull));
    assert_eq!(
        Shown(TransitError::CapacityFull).to_string(),
        "relay reservation table is full"
    );
}

#[test]
fn limits_default_is_personal_mode_unlimited() {
    let limits = Limits::default();
    assert_eq!(limits.max_circuit_bytes, 0);
    assert_eq!(limits.max_circuit_duration_secs, 0);
}

#[test]
fn default_reservation_ttl_matches_design_doc() {
    // Five to ten minutes.
    assert!(DEFAULT_RESERVATION_TTL_SECS >= 300);
    assert!(DEFAULT_RESERVATION_TTL_SECS <= 600);
}

#[test]
fn transit_errors_read_as_written() {
    let cases = [
        (
            TransitError::WhitelistRejected,
            "caller is not in the relay's whitelist",
        ),
        (
            TransitError::CapacityFull,
            "relay reservation table is full",
        ),
        (
            TransitError::VoucherExpired,
            "voucher expiry is in the past",
        ),
        (
            TransitError::VoucherInvalidSig,
            "voucher signature does not verify",
        ),
        (
            TransitError::TargetNotFound,
            "no active reservation for the requested target",
        ),
        (TransitError::MalformedFrame, "frame failed to decode"),
        (
            TransitError::UnexpectedFrame,
            "frame is valid but unexpected in current state",
        ),
    ];
    for (e, text) in cases {
        assert_eq!(e.to_string(), text);
        let frame = TransitFrame::ConnectResponse(ConnectOutcome::Denied(e));
        assert_eq!(decode_frame(&encode_frame(&frame).unwrap()), Ok(frame));
        let frame = TransitFrame::ReserveResponse(ReserveOutcome::Denied(e));
        assert_eq!(decode_frame(&encode_frame(&frame).unwrap()), Ok(frame));
    }
}

#[test]
fn signatures_are_those_of_the_transport() {
    let voucher = make_voucher();
    let key = iroh::SecretKey::from_bytes(&relay_secret());
    assert_eq!(
        voucher.signature,
        key.sign(&voucher.signing_bytes()).to_bytes()
    );
    assert_eq!(
        key.public()
            .verify(
                &voucher.signing_bytes(),
                &iroh::Signature::from_bytes(&voucher.signature)
            )
            .is_ok(),
        voucher.verify(&public(&relay_secret())).is_ok()
    );
}

#[test]
fn signed_bytes_are_exact() {
    let mut voucher = make_voucher();
    voucher.expire_unix_secs = 0x0102_0304_0506_0708;
    let mut expected = b"nerw/transit/voucher/v1".to_vec();
    expected.extend_from_slice(voucher.relay_node_id.as_bytes());
    expected.extend_from_slice(voucher.peer_node_id.as_bytes());
    expected.extend_from_slice(&[1, 2, 3, 4, 5, 6, 7, 8]);
    assert_eq!(voucher.signing_bytes(), expected);
}

#[test]
fn altered_vouchers_sign_other_bytes() {
    let voucher = make_voucher();
    let mut later = voucher.clone();
    later.expire_unix_secs += 1;
    let mut other_peer = voucher.clone();
    other_peer.peer_node_id = public(&[3u8; 32]);
    let mut other_relay = voucher.clone();
    other_relay.relay_node_id = public(&[4u8; 32]);
    for altered in [later, other_peer, other_relay] {
        assert_ne!(altered.signing_bytes(), voucher.signing_bytes());
    }
}

#[test]
fn verdicts_need_both_relay_and_signature() {
    let voucher = make_voucher();
    let relay = public(&relay_secret());
    let other = public(&[9u8; 32]);
    assert_eq!(voucher.judge(&relay, true), Ok(()));
    assert_eq!(
        voucher.judge(&relay, false),
        Err(TransitError::VoucherInvalidSig)
    );
    assert_eq!(
        voucher.judge(&other, true),
        Err(TransitError::VoucherInvalidSig)
    );
    let mut forged = make_voucher();
    forged.signature[0] ^= 1;
    assert_eq!(forged.verify(&relay), Err(TransitError::VoucherInvalidSig));
}

#[test]
fn transit_frames_are_postcard_enums() {
    let peer = peer_public();
    let key: &[u8; 32] = peer.as_bytes();
    let hello = TransitFrame::Hello {
        peer_id: peer,
        capabilities: Capabilities {
            reserved_flags: 300,
        },
    };
    assert_eq!(
        encode_frame(&hello).unwrap(),
        postcard::to_allocvec(&(0u32, key, 300u32)).unwrap()
    );
    let reserve = TransitFrame::ReserveRequest {
        reservee_id: peer,
        signature: vec![7; 3],
    };
    assert_eq!(
        encode_frame(&reserve).unwrap(),
        postcard::to_allocvec(&(1u32, key, vec![7u8; 3])).unwrap()
    );
    let voucher = make_voucher();
    let mut expected = vec![2, 0];
    expected.extend_from_slice(voucher.relay_node_id.as_bytes());
    expected.extend_from_slice(voucher.peer_node_id.as_bytes());
    expected.extend_from_slice(&postcard::to_allocvec(&voucher.expire_unix_secs).unwrap());
    expected.extend_from_slice(&voucher.signature);
    expected.extend_from_slice(&postcard::to_allocvec(&(1000u64, 60u64)).unwrap());
    let granted = TransitFrame::ReserveResponse(ReserveOutcome::Granted {
        voucher,
        limits: Limits {
            max_circuit_bytes: 1000,
            max_circuit_duration_secs: 60,
        },
    });
    assert_eq!(encode_frame(&granted).unwrap(), expected);
    assert_eq!(decode_frame(&expected), Ok(granted));
    assert_eq!(
        encode_frame(&TransitFrame::ConnectRequest {
            target_id: peer,
            voucher: None
        })
        .unwrap(),
        postcard::to_allocvec(&(3u32, key, None::<u8>)).unwrap()
    );
    assert_eq!(
        encode_frame(&TransitFrame::ConnectResponse(ConnectOutcome::Granted)).unwrap(),
        vec![4, 0]
    );
    assert_eq!(
        encode_frame(&TransitFrame::Bye {
            reason: Some("end".to_owned())
        })
        .unwrap(),
        postcard::to_allocvec(&(5u32, Some("end"))).unwrap()
    );
}

#[test]
fn node_ids_and_signatures_are_raw_bytes_on_the_wire() {
    let key = iroh::SecretKey::from_bytes(&[2u8; 32]);
    assert_eq!(
        postcard::to_allocvec(&key.public()).unwrap(),
        key.public().as_bytes().to_vec()
    );
    assert_eq!(
        postcard::to_allocvec(&key.sign(b"m")).unwrap(),
        key.sign(b"m").to_bytes().to_vec()
    );
}

#[test]
fn frames_with_a_broken_key_are_malformed() {
    let mut bad_key = [0u8; 32];
    for x in 0..255u8 {
        bad_key[0] = x;
        if NodeId::from_bytes(&bad_key).is_none() {
            break;
        }
    }
    assert!(NodeId::from_bytes(&bad_key).is_none());
    let mut wire = vec![0];
    wire.extend_from_slice(&bad_key);
    wire.push(0);
    assert_eq!(decode_frame(&wire), Err(TransitError::MalformedFrame));
    let mut voucher = make_voucher().to_bytes();
    assert!(Voucher::from_bytes(&voucher[..voucher.len() - 1]).is_none());
    voucher[..32].copy_from_slice(&bad_key);
    assert!(Voucher::from_bytes(&voucher).is_none());
}

#[test]
fn frames_cut_short_are_malformed() {
    let frames = [
        TransitFrame::Hello {
            peer_id: peer_public(),
            capabilities: Capabilities {
                reserved_flags: 300,
            },
        },
        TransitFrame::ReserveRequest {
            reservee_id: peer_public(),
            signature: vec![9u8; 64],
        },
        TransitFrame::ReserveResponse(ReserveOutcome::Granted {
            voucher: make_voucher(),
            limits: Limits {
                max_circuit_bytes: u64::MAX,
                max_circuit_duration_secs: 128,
            },
        }),
        TransitFrame::ConnectRequest {
            target_id: peer_public(),
            voucher: Some(make_voucher()),
        },
        TransitFrame::ConnectResponse(ConnectOutcome::Denied(TransitError::CapacityFull)),
        TransitFrame::Bye {
            reason: Some("\u{43f}\u{43e}\u{43a}\u{430}".to_owned()),
        },
    ];
    for frame in frames {
        let wire = encode_frame(&frame).unwrap();
        for k in 0..wire.len() {
            assert_eq!(
                decode_frame(&wire[..k]),
                Err(TransitError::MalformedFrame),
                "{frame:?} cut to {k} bytes"
            );
        }
        assert_eq!(decode_frame(&wire), Ok(frame));
    }
}
