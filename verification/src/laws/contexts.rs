//! Laws on identities, contexts, protocols and the built-in listing.
use vstd::prelude::*;

use crate::codec::{texts, CodecError};
use crate::context::{
    fresh_ids_are_not_nil, is_public_key, loopback_node_id, loopback_secret, public_key_of,
    AuthenticatedContext, NodeId, PeerMetadata, RpcContext, TimingInfo, TracingInfo,
};
use crate::error::{RpcError, RpcResult};
use crate::laws::errors::{lemma_same_texts, lemma_sized_texts, same_texts, sized_texts};
use crate::method::{is_listing, HandlerEntry, MethodRegistry};
use crate::schema::{
    register_schema_method, schema_response_roundtrip, SchemaError, SchemaHandler, SchemaResponse,
};
use crate::text::text_less;
use crate::transport::nerw_rpc_alpns;

verus! {

/// An ASCII text as bytes.
pub open spec fn ascii(s: Seq<char>) -> Seq<u8> {
    Seq::new(s.len(), |i: int| s[i] as u8)
}

/// Bytes that are a key make an identity with just these bytes, and no others do; two
/// identities are the same if and only if their bytes are.
pub proof fn identities_are_their_keys(
    bytes: &[u8; 32],
    r: Option<NodeId>,
    a: &NodeId,
    b: &NodeId,
    x: &[u8; 32],
    y: &[u8; 32],
    same: bool,
)
    requires
        call_ensures(NodeId::from_bytes, (bytes,), r),
        call_ensures(NodeId::as_bytes, (a,), x),
        call_ensures(NodeId::as_bytes, (b,), y),
        call_ensures(NodeId::same, (a, b), same),
    ensures
        is_public_key(bytes@) <==> r is Some,
        r matches Some(id) ==> id@ == bytes@,
        x@ == a@ && is_public_key(x@) && x@.len() == 32,
        same <==> x@ == y@,
{
}

/// The identity of a secret is its public key, and the loopback identity that of 32 zero
/// bytes.
pub proof fn identities_of_secrets(secret: &[u8; 32], r: NodeId, loopback: NodeId)
    requires
        call_ensures(NodeId::from_secret, (secret,), r),
        call_ensures(loopback_node_id, (), loopback),
    ensures
        r@ == public_key_of(secret@),
        (forall|i: int| 0 <= i < 32 ==> #[trigger] secret@[i] == 0) ==> r@ == loopback@,
{
    if forall|i: int| 0 <= i < 32 ==> #[trigger] secret@[i] == 0 {
        assert(secret@ =~= loopback_secret());
    }
}

/// The loopback peer has the loopback identity and the protocol `nerw-rpc/1`, and nothing
/// else.
pub proof fn loopback_peers(id: NodeId, p: PeerMetadata)
    requires
        call_ensures(loopback_node_id, (), id),
        call_ensures(PeerMetadata::loopback, (), p),
    ensures
        p.node_id@ == id@,
        p.alpn@ == ascii("nerw-rpc/1"@),
        p.connection_id == 0 && p.stream_id == 0 && p.handshake_at_ms == 0,
        p.tls_cipher_suite is None,
{
    reveal_strlit("nerw-rpc/1");
    assert(p.alpn@ =~= ascii("nerw-rpc/1"@));
}

/// A scope is granted if and only if it is among the scopes.
pub proof fn scopes_are_granted(auth: &AuthenticatedContext, scope: &str, r: bool)
    requires
        call_ensures(AuthenticatedContext::has_scope, (auth, scope), r),
    ensures
        r <==> exists|i: int|
            0 <= i < auth.scopes@.len() && (#[trigger] auth.scopes@[i])@ == scope@,
{
    let list = texts(auth.scopes@);
    assert(list.len() == auth.scopes@.len());
    if r {
        let i = choose|i: int| 0 <= i < list.len() && list[i] == scope@;
        assert(auth.scopes@[i]@ == scope@);
    }
    if exists|i: int| 0 <= i < auth.scopes@.len() && (#[trigger] auth.scopes@[i])@ == scope@ {
        let i = choose|i: int|
            0 <= i < auth.scopes@.len() && (#[trigger] auth.scopes@[i])@ == scope@;
        assert(list[i] == scope@);
    }
}

/// Tracing starts with the identifiers it is given, or with random ones, and inherits
/// nothing.
pub proof fn tracing_starts_anew(trace: u128, span: u128, given: TracingInfo, drawn: TracingInfo)
    requires
        call_ensures(TracingInfo::from_ids, (trace, span), given),
        call_ensures(TracingInfo::fresh, (), drawn),
    ensures
        given.trace_id == trace && given.span_id == span,
        given.parent_span_id is None && given.correlation_id is None && !given.sampled,
        drawn.parent_span_id is None && drawn.correlation_id is None && !drawn.sampled,
        drawn.trace_id != 0 && drawn.span_id != 0,
{
    fresh_ids_are_not_nil(drawn);
}

/// A minimal context knows the peer and nothing else.
pub proof fn minimal_contexts(peer: PeerMetadata, r: RpcContext, zero: TimingInfo)
    requires
        call_ensures(RpcContext::minimal, (peer,), r),
        call_ensures(TimingInfo::zero, (), zero),
    ensures
        r.peer == peer,
        r.timing == zero,
        zero.received_at_ms == 0 && zero.received_at_monotonic_ns == 0
            && zero.frame_decode_duration_us == 0,
        r.auth is None && r.session is None,
        r.tracing.parent_span_id is None && r.tracing.correlation_id is None
            && !r.tracing.sampled,
        r.tracing.trace_id != 0 && r.tracing.span_id != 0,
{
    fresh_ids_are_not_nil(r.tracing);
}

/// An endpoint announces three protocols.
pub proof fn announced_protocols(r: Vec<Vec<u8>>)
    requires
        call_ensures(nerw_rpc_alpns, (), r),
    ensures
        r@.len() == 3,
        r@[0]@ == ascii("tolki/wire-protocol/2.0.0"@),
        r@[1]@ == ascii("tolki/datagram/2.0.0"@),
        r@[2]@ == ascii("nerw/rpc/2.0.0"@),
{
    let list = r@.map_values(|v: Vec<u8>| v@);
    assert(list.len() == r@.len());
    assert(list[0] == r@[0]@ && list[1] == r@[1]@ && list[2] == r@[2]@);
    reveal_strlit("tolki/wire-protocol/2.0.0");
    reveal_strlit("tolki/datagram/2.0.0");
    reveal_strlit("nerw/rpc/2.0.0");
    assert(r@[0]@ =~= ascii("tolki/wire-protocol/2.0.0"@));
    assert(r@[1]@ =~= ascii("tolki/datagram/2.0.0"@));
    assert(r@[2]@ =~= ascii("nerw/rpc/2.0.0"@));
}

/// The built-in method is registered as `nerw:schema@1.0.0/schema/get`, as a unary method,
/// and no other entry is touched.
pub proof fn listing_method_is_registered<U, S>(
    reg: &mut MethodRegistry<U, S>,
    handler: U,
    other: Seq<char>,
)
    requires
        call_ensures(register_schema_method::<U, S>, (reg, handler), ()),
        other != "nerw:schema@1.0.0/schema/get"@,
    ensures
        final(reg)@.dom().contains("nerw:schema@1.0.0/schema/get"@),
        final(reg)@["nerw:schema@1.0.0/schema/get"@] == HandlerEntry::<U, S>::Unary(handler),
        final(reg)@.dom().contains(other) <==> old(reg)@.dom().contains(other),
        final(reg)@[other] == old(reg)@[other],
{
}

/// The built-in method answers with the names that are registered, each once and in
/// ascending order, and with an error if the registry is gone.
pub proof fn listings_are_answered<'a, U, S>(
    reg: &'a MethodRegistry<U, S>,
    r: RpcResult<Vec<u8>>,
    gone: RpcResult<Vec<u8>>,
    input: &[u8],
    read: Result<SchemaResponse, CodecError>,
)
    requires
        call_ensures(SchemaHandler::handle::<U, S>, (Some(reg),), r),
        call_ensures(SchemaHandler::handle::<U, S>, (None,), gone),
        r matches Ok(b) && input@ == b@,
        call_ensures(SchemaResponse::from_bytes, (input,), read),
    ensures
        gone matches Err(RpcError::Handler(s)) && s@ == "method registry has been dropped"@,
        read matches Ok(v) && {
            &&& forall|i: int, j: int|
                0 <= i < j < v.methods@.len() ==> text_less(
                    (#[trigger] v.methods@[i])@,
                    (#[trigger] v.methods@[j])@,
                )
            &&& forall|k: Seq<char>| #[trigger]
                reg@.dom().contains(k) <==> exists|i: int|
                    0 <= i < v.methods@.len() && (#[trigger] v.methods@[i])@ == k
        },
{
    let v = read->Ok_0;
    let list = texts(v.methods@);
    assert(list.len() == v.methods@.len());
    assert(is_listing(list, reg@.dom()));
    assert forall|i: int, j: int| 0 <= i < j < v.methods@.len() implies text_less(
        (#[trigger] v.methods@[i])@,
        (#[trigger] v.methods@[j])@,
    ) by {
        assert(list[i] == v.methods@[i]@ && list[j] == v.methods@[j]@);
    }
    assert forall|k: Seq<char>| #[trigger] reg@.dom().contains(k) implies exists|i: int|
        0 <= i < v.methods@.len() && (#[trigger] v.methods@[i])@ == k by {
        let i = choose|i: int| 0 <= i < list.len() && list[i] == k;
        assert(v.methods@[i]@ == k);
    }
    assert forall|k: Seq<char>|
        (exists|i: int| 0 <= i < v.methods@.len() && (#[trigger] v.methods@[i])@ == k)
            implies #[trigger] reg@.dom().contains(k) by {
        let i = choose|i: int| 0 <= i < v.methods@.len() && (#[trigger] v.methods@[i])@ == k;
        assert(list[i] == k);
        assert(list.contains(k));
    }
}

/// A listing is written as a list of texts, and read back, whatever follows it.
pub proof fn listings_read_back(
    v: &SchemaResponse,
    b: Vec<u8>,
    rest: Seq<u8>,
    input: &[u8],
    r: Result<SchemaResponse, CodecError>,
    e: &SchemaError,
    text: String,
)
    requires
        call_ensures(SchemaResponse::to_bytes, (v,), b),
        input@ == b@ + rest,
        call_ensures(SchemaResponse::from_bytes, (input,), r),
        call_ensures(SchemaError::to_string, (e,), text),
    ensures
        b@ == sized_texts(v.methods@),
        r matches Ok(w) && same_texts(v.methods@, w.methods@),
        text@ == "method registry has been dropped"@,
{
    lemma_sized_texts(v.methods@);
    schema_response_roundtrip(texts(v.methods@), rest);
    if let Ok(w) = r {
        lemma_same_texts(v.methods@, w.methods@);
    }
}

/// What stands in where nothing is known.
pub proof fn context_defaults(
    p: PeerMetadata,
    loopback: PeerMetadata,
    t: TimingInfo,
    x: TracingInfo,
    l: SchemaResponse,
)
    requires
        call_ensures(<PeerMetadata as Default>::default, (), p),
        call_ensures(PeerMetadata::loopback, (), loopback),
        call_ensures(<TimingInfo as Default>::default, (), t),
        call_ensures(<TracingInfo as Default>::default, (), x),
        call_ensures(<SchemaResponse as Default>::default, (), l),
    ensures
        p.node_id@ == loopback.node_id@ && p.alpn@ == loopback.alpn@,
        p.connection_id == 0 && p.stream_id == 0 && p.handshake_at_ms == 0,
        p.tls_cipher_suite is None,
        t.received_at_ms == 0 && t.received_at_monotonic_ns == 0 && t.frame_decode_duration_us == 0,
        x.parent_span_id is None && x.correlation_id is None && !x.sampled,
        x.trace_id != 0 && x.span_id != 0,
        l.methods@.len() == 0,
{
    fresh_ids_are_not_nil(x);
    assert(texts(l.methods@).len() == l.methods@.len());
}

} // verus!
