//! Identities, timing and tracing of a call.
use nerw_rpc::context::{
    loopback_node_id, AuthenticatedContext, NodeId, PeerMetadata, RpcContext, TimingInfo,
    TracingInfo,
};
use uuid::Uuid;

#[test]
fn loopback_node_id_is_deterministic() {
    let a = loopback_node_id();
    let b = loopback_node_id();
    assert_eq!(a, b, "loopback_node_id must be deterministic");
}

#[test]
fn peer_metadata_loopback_has_alpn() {
    let m = PeerMetadata::loopback();
    assert_eq!(m.alpn, b"nerw-rpc/1");
    assert_eq!(m.node_id, loopback_node_id());
}

#[test]
fn timing_zero_default() {
    let t = TimingInfo::default();
    assert_eq!(t.received_at_ms, 0);
    assert_eq!(t.received_at_monotonic_ns, 0);
}

#[test]
fn tracing_starts_with_the_given_ids() {
    let t = TracingInfo::from_ids(11, 22);
    assert_eq!(t.trace_id, 11);
    assert_eq!(t.span_id, 22);
    assert_eq!(t.parent_span_id, None);
    assert_eq!(t.correlation_id, None);
    assert!(!t.sampled);
}

#[test]
fn tracing_fresh_distinct_ids() {
    let t = TracingInfo::fresh();
    assert_ne!(t.trace_id, Uuid::nil().as_u128());
    assert_ne!(t.span_id, Uuid::nil().as_u128());
    assert_ne!(t.trace_id, t.span_id);
    assert!(t.parent_span_id.is_none());
    assert!(!t.sampled);
}

#[test]
fn tracing_fresh_yields_distinct_ids_per_call() {
    let a = TracingInfo::fresh();
    let b = TracingInfo::fresh();
    assert_ne!(a.trace_id, b.trace_id);
    assert_ne!(a.span_id, b.span_id);
}

#[test]
fn authenticated_has_scope() {
    let auth = AuthenticatedContext {
        node_id: loopback_node_id(),
        master_pubkey: [0u8; 32],
        user_id: Uuid::new_v4().as_u128(),
        device_id: Uuid::new_v4().as_u128(),
        scopes: vec!["chat:send".to_string(), "profile:read".to_string()],
        registered_at_ms: 0,
        last_seen_at_ms: 0,
    };
    assert!(auth.has_scope("chat:send"));
    assert!(auth.has_scope("profile:read"));
    assert!(!auth.has_scope("admin"));
}

#[test]
fn rpc_context_minimal_anonymous() {
    let ctx = RpcContext::minimal(PeerMetadata::loopback());
    assert!(ctx.auth.is_none());
    assert!(ctx.session.is_none());
    assert_ne!(ctx.tracing.trace_id, Uuid::nil().as_u128());
}

#[test]
fn scopes_match_whole_strings_only() {
    let mut auth = AuthenticatedContext {
        node_id: loopback_node_id(),
        master_pubkey: [7u8; 32],
        user_id: 1,
        device_id: 2,
        scopes: vec![],
        registered_at_ms: 0,
        last_seen_at_ms: 0,
    };
    assert!(!auth.has_scope(""));
    auth.scopes = vec!["chat:send".to_owned(), "\u{43f}\u{440}\u{430}\u{432}\u{43e}".to_owned()];
    assert!(!auth.has_scope("chat"));
    assert!(!auth.has_scope("chat:sender"));
    assert!(auth.has_scope("\u{43f}\u{440}\u{430}\u{432}\u{43e}"));
}

#[test]
fn fresh_ids_are_random_uuids() {
    for _ in 0..32 {
        let t = TracingInfo::default();
        for id in [t.trace_id, t.span_id] {
            let id = Uuid::from_u128(id);
            assert_eq!(id.get_version_num(), 4);
            assert_eq!(id.get_variant(), uuid::Variant::RFC4122);
        }
        assert!(t.correlation_id.is_none());
    }
}

#[test]
fn node_ids_are_the_keys_of_the_transport() {
    for seed in [0u8, 1, 2, 77, 255] {
        let secret = [seed; 32];
        let key = iroh::SecretKey::from_bytes(&secret).public();
        let id = NodeId::from_secret(&secret);
        assert_eq!(id.as_bytes(), key.as_bytes());
        assert_eq!(NodeId::from_bytes(key.as_bytes()), Some(id));
    }
    assert_eq!(
        loopback_node_id().as_bytes(),
        iroh::SecretKey::from_bytes(&[0u8; 32]).public().as_bytes()
    );
}

#[test]
fn node_ids_compare_by_key() {
    let a = NodeId::from_secret(&[1u8; 32]);
    let b = NodeId::from_secret(&[2u8; 32]);
    assert!(a.same(&NodeId::from_secret(&[1u8; 32])));
    assert!(!a.same(&b));
    assert_ne!(a.as_bytes(), &[1u8; 32]);
}

#[test]
fn bytes_off_the_curve_are_no_node_id() {
    let mut refused = 0;
    for x in 0..64u8 {
        let mut bytes = [0u8; 32];
        bytes[0] = x;
        let taken = iroh::PublicKey::from_bytes(&bytes).is_ok();
        assert_eq!(NodeId::from_bytes(&bytes).is_some(), taken);
        if !taken {
            refused += 1;
        }
    }
    assert!(refused > 0);
}

#[test]
fn loopback_metadata_is_fixed() {
    let m = PeerMetadata::default();
    assert_eq!(m.connection_id, 0);
    assert_eq!(m.stream_id, 0);
    assert_eq!(m.handshake_at_ms, 0);
    assert!(m.tls_cipher_suite.is_none());
    assert_eq!(TimingInfo::zero().frame_decode_duration_us, 0);
}

#[test]
fn minimal_context_keeps_its_peer() {
    let mut peer = PeerMetadata::loopback();
    peer.connection_id = 9;
    peer.stream_id = 4;
    peer.tls_cipher_suite = Some("TLS13_CHACHA20_POLY1305_SHA256".to_owned());
    let ctx = RpcContext::minimal(peer);
    assert_eq!(ctx.peer.connection_id, 9);
    assert_eq!(ctx.peer.stream_id, 4);
    assert_eq!(
        ctx.peer.tls_cipher_suite.as_deref(),
        Some("TLS13_CHACHA20_POLY1305_SHA256")
    );
    assert_eq!(ctx.timing.received_at_ms, 0);
}
