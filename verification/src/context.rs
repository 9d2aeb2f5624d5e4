//! What a handler is told about the call it answers.
//!
//! A context holds the peer's transport identity, timing, the application identity once
//! it is known, session data and tracing identifiers. Identities are opaque keys and
//! numbers; nothing here describes the device or software of the peer.
use vstd::prelude::*;

use crate::codec::texts;
use crate::text::{order_bytes, same_text, TextOrder};

verus! {

/// Whether 32 bytes are an Ed25519 public key, that is, encode a point of the curve.
pub uninterp spec fn is_public_key(bytes: Seq<u8>) -> bool;

/// The Ed25519 public key of a 32-byte secret.
pub uninterp spec fn public_key_of(secret: Seq<u8>) -> Seq<u8>;

/// `iroh::PublicKey::from_bytes`: accepts the bytes if and only if they encode a point
/// of the curve. Only that the answer is a function of the bytes is claimed.
#[verifier::external_body]
fn check_public_key(bytes: &[u8; 32]) -> (r: bool)
    ensures
        r == is_public_key(bytes@),
{
    iroh::PublicKey::from_bytes(bytes).is_ok()
}

/// `iroh::SecretKey::public` of the key made by `iroh::SecretKey::from_bytes`: the bytes
/// of the public key, which `iroh::PublicKey::from_bytes` accepts. Beyond that, only that
/// they are a function of the secret is claimed.
#[verifier::external_body]
fn derive_public_key(secret: &[u8; 32]) -> (r: [u8; 32])
    ensures
        r@ == public_key_of(secret@),
        is_public_key(r@),
{
    *iroh::SecretKey::from_bytes(secret).public().as_bytes()
}

/// Identity of an endpoint: its Ed25519 public key.
#[derive(Clone, Copy, Debug, PartialEq, Eq, Hash)]
pub struct NodeId {
    bytes: [u8; 32],
}

impl View for NodeId {
    type V = Seq<u8>;

    closed spec fn view(&self) -> Seq<u8> {
        self.bytes@
    }
}

impl NodeId {
    #[verifier::type_invariant]
    spec fn inv(self) -> bool {
        is_public_key(self.bytes@)
    }

    /// The identity with the given key; `None` if the bytes are no key.
    pub fn from_bytes(bytes: &[u8; 32]) -> (r: Option<Self>)
        ensures
            r is Some <==> is_public_key(bytes@),
            r matches Some(id) ==> id@ == bytes@,
    {
        if check_public_key(bytes) {
            Some(NodeId { bytes: *bytes })
        } else {
            None
        }
    }

    /// The identity that belongs to a secret.
    pub fn from_secret(secret: &[u8; 32]) -> (r: Self)
        ensures
            r@ == public_key_of(secret@),
    {
        NodeId { bytes: derive_public_key(secret) }
    }

    /// The key of the identity.
    pub fn as_bytes(&self) -> (r: &[u8; 32])
        ensures
            r@ == self@,
            is_public_key(self@),
            self@.len() == 32,
    {
        proof {
            use_type_invariant(self);
        }
        &self.bytes
    }

    /// Whether two identities are the same.
    pub fn same(&self, other: &NodeId) -> (r: bool)
        ensures
            r == (self@ == other@),
    {
        matches!(order_bytes(&self.bytes, &other.bytes), TextOrder::Same)
    }
}

/// `nerw-rpc/1`: the protocol that a loopback peer names.
pub const LOOPBACK_ALPN: &'static [u8; 10] = &[
    0x6e, 0x65, 0x72, 0x77, 0x2d, 0x72, 0x70, 0x63, 0x2f, 0x31,
];

/// Transport identity of a peer, taken when its stream or datagram arrived.
#[derive(Clone, Debug)]
pub struct PeerMetadata {
    /// The peer, as proved when the connection was set up.
    pub node_id: NodeId,
    /// Number of the connection.
    pub connection_id: u64,
    /// Number of the stream within the connection.
    pub stream_id: u64,
    /// Negotiated protocol.
    pub alpn: Vec<u8>,
    /// When the connection was set up, in milliseconds since 1970.
    pub handshake_at_ms: i64,
    /// Negotiated cipher suite, if known.
    pub tls_cipher_suite: Option<String>,
}

/// The secret that loopback identities are derived from: 32 zero bytes.
pub open spec fn loopback_secret() -> Seq<u8> {
    Seq::new(32, |i: int| 0u8)
}

/// The identity used where no connection is involved, derived from an all-zero secret.
pub fn loopback_node_id() -> (r: NodeId)
    ensures
        r@ == public_key_of(loopback_secret()),
{
    let secret: [u8; 32] = [0; 32];
    assert(secret@ =~= loopback_secret());
    NodeId::from_secret(&secret)
}

/// Whether `p` describes the loopback peer.
pub open spec fn is_loopback(p: PeerMetadata) -> bool {
    &&& p.node_id@ == public_key_of(loopback_secret())
    &&& p.connection_id == 0
    &&& p.stream_id == 0
    &&& p.alpn@ == LOOPBACK_ALPN@
    &&& p.handshake_at_ms == 0
    &&& p.tls_cipher_suite is None
}

impl PeerMetadata {
    /// The loopback peer, the same every time.
    pub fn loopback() -> (r: Self)
        ensures
            is_loopback(r),
    {
        PeerMetadata {
            node_id: loopback_node_id(),
            connection_id: 0,
            stream_id: 0,
            alpn: vstd::slice::slice_to_vec(LOOPBACK_ALPN),
            handshake_at_ms: 0,
            tls_cipher_suite: None,
        }
    }
}

impl Default for PeerMetadata {
    fn default() -> (r: Self)
        ensures
            is_loopback(r),
    {
        PeerMetadata::loopback()
    }
}

/// Application identity of a peer, once it is known.
#[derive(Clone, Debug)]
pub struct AuthenticatedContext {
    /// The peer, as proved when the connection was set up.
    pub node_id: NodeId,
    /// Ed25519 master key that is registered for the peer.
    pub master_pubkey: [u8; 32],
    /// Opaque number of the user.
    pub user_id: u128,
    /// Opaque number of the device.
    pub device_id: u128,
    /// What the peer may do.
    pub scopes: Vec<String>,
    /// When the peer first registered, in milliseconds since 1970.
    pub registered_at_ms: i64,
    /// When the peer last made a call, in milliseconds since 1970.
    pub last_seen_at_ms: i64,
}

impl AuthenticatedContext {
    /// Whether `scope` was granted.
    pub fn has_scope(&self, scope: &str) -> (r: bool)
        ensures
            r == texts(self.scopes@).contains(scope@),
    {
        let ghost granted = texts(self.scopes@);
        let mut i: usize = 0;
        while i < self.scopes.len()
            invariant
                i <= self.scopes@.len(),
                granted == texts(self.scopes@),
                forall|j: int| 0 <= j < i ==> #[trigger] granted[j] != scope@,
            decreases self.scopes@.len() - i,
        {
            assert(granted[i as int] == self.scopes@[i as int]@);
            if same_text(self.scopes[i].as_str(), scope) {
                return true;
            }
            i = i + 1;
        }
        false
    }
}

/// Session of a long-lived connection.
#[derive(Clone, Copy, Debug)]
pub struct SessionInfo {
    /// Opaque number of the session.
    pub session_id: u128,
    /// When the session was opened, in milliseconds since 1970.
    pub session_started_at_ms: i64,
    /// When the session was last used, in milliseconds since 1970.
    pub last_activity_ms: i64,
    /// How many keepalive frames were exchanged.
    pub keepalive_count: u32,
}

/// When a call arrived, and how long its frame took to decode.
#[derive(Clone, Copy, Debug)]
pub struct TimingInfo {
    /// Wall clock, in milliseconds since 1970.
    pub received_at_ms: i64,
    /// Monotonic clock, in nanoseconds.
    pub received_at_monotonic_ns: u64,
    /// Microseconds spent decoding the frame; 0 if not measured.
    pub frame_decode_duration_us: u64,
}

impl TimingInfo {
    /// Timing where nothing was measured.
    pub fn zero() -> (r: Self)
        ensures
            r == (TimingInfo {
                received_at_ms: 0,
                received_at_monotonic_ns: 0,
                frame_decode_duration_us: 0,
            }),
    {
        TimingInfo { received_at_ms: 0, received_at_monotonic_ns: 0, frame_decode_duration_us: 0 }
    }
}

impl Default for TimingInfo {
    fn default() -> (r: Self)
        ensures
            r == (TimingInfo {
                received_at_ms: 0,
                received_at_monotonic_ns: 0,
                frame_decode_duration_us: 0,
            }),
    {
        TimingInfo::zero()
    }
}

/// Whether a number is a random (version 4) UUID: 4 in its version digit, 2 in the two
/// bits of its variant.
pub open spec fn is_uuid_v4(id: u128) -> bool {
    &&& (id / 0x1000_0000_0000_0000_0000) % 16 == 4
    &&& (id / 0x4000_0000_0000_0000) % 4 == 2
}

/// `uuid::Uuid::new_v4`: a random number with the version and variant digits set. Which
/// number comes, and that two numbers differ, is left to chance and not claimed.
#[verifier::external_body]
fn random_uuid() -> (r: u128)
    ensures
        is_uuid_v4(r),
{
    uuid::Uuid::new_v4().as_u128()
}

/// Identifiers that tie the calls of one operation together.
#[derive(Clone, Copy, Debug)]
pub struct TracingInfo {
    /// The operation.
    pub trace_id: u128,
    /// This call.
    pub span_id: u128,
    /// The call that this one is part of.
    pub parent_span_id: Option<u128>,
    /// Identifier chosen by the caller.
    pub correlation_id: Option<u128>,
    /// Whether the call is to be recorded.
    pub sampled: bool,
}

/// Whether `t` starts an operation of its own: random identifiers, nothing inherited, not
/// recorded.
pub open spec fn is_fresh(t: TracingInfo) -> bool {
    &&& is_uuid_v4(t.trace_id)
    &&& is_uuid_v4(t.span_id)
    &&& t.parent_span_id is None
    &&& t.correlation_id is None
    &&& !t.sampled
}

impl TracingInfo {
    /// The start of the operation `trace_id` by the call `span_id`: nothing inherited, not
    /// recorded.
    pub fn from_ids(trace_id: u128, span_id: u128) -> (r: Self)
        ensures
            r == (TracingInfo {
                trace_id,
                span_id,
                parent_span_id: None,
                correlation_id: None,
                sampled: false,
            }),
    {
        TracingInfo {
            trace_id,
            span_id,
            parent_span_id: None,
            correlation_id: None,
            sampled: false,
        }
    }

    /// Identifiers of a new operation, drawn at random.
    pub fn fresh() -> (r: Self)
        ensures
            is_fresh(r),
    {
        let trace_id: u128 = random_uuid();
        let span_id: u128 = random_uuid();
        TracingInfo::from_ids(trace_id, span_id)
    }
}

impl Default for TracingInfo {
    fn default() -> (r: Self)
        ensures
            is_fresh(r),
    {
        TracingInfo::fresh()
    }
}

/// A random UUID is never the nil one.
pub proof fn fresh_ids_are_not_nil(t: TracingInfo)
    requires
        is_fresh(t),
    ensures
        t.trace_id != 0,
        t.span_id != 0,
{
}

/// What a handler is told about the call it answers.
#[derive(Clone, Debug)]
pub struct RpcContext {
    /// Transport identity of the peer.
    pub peer: PeerMetadata,
    /// When the call arrived.
    pub timing: TimingInfo,
    /// Application identity of the peer, once it is known.
    pub auth: Option<AuthenticatedContext>,
    /// Session of the connection, if it has one.
    pub session: Option<SessionInfo>,
    /// Tracing identifiers.
    pub tracing: TracingInfo,
}

impl RpcContext {
    /// The context of a call from `peer` of which nothing else is known.
    pub fn minimal(peer: PeerMetadata) -> (r: Self)
        ensures
            r.peer == peer,
            r.timing == (TimingInfo {
                received_at_ms: 0,
                received_at_monotonic_ns: 0,
                frame_decode_duration_us: 0,
            }),
            r.auth is None,
            r.session is None,
            is_fresh(r.tracing),
    {
        RpcContext {
            peer,
            timing: TimingInfo::zero(),
            auth: None,
            session: None,
            tracing: TracingInfo::fresh(),
        }
    }
}

} // verus!
