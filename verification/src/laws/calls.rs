//! Laws on calls: what a client sends, what a server makes of it, and what comes back.
use std::sync::Arc;

use vstd::prelude::*;
use vstd::string::to_string_from_display_ensures;
use vstd::utf8::encode_utf8;

use crate::client::{
    decode_response_frame, error_response_roundtrip, is_transport_io_error, refusal_reaches_client,
    CallEvent, CallStage, CallStep, UnaryCall, RPC_RESPONSE_READ_LIMIT,
};
use crate::codec::CodecError;
use crate::context::{fresh_ids_are_not_nil, NodeId, RpcContext};
use crate::error::{codec_error_text, RpcError, RpcResult};
use crate::laws::errors::{envelope, lemma_envelope, same_error, views_of_errors_are_faithful};
use crate::laws::frames::{
    chunks_are_read_whole, error_body, layout, lemma_layout, sized, sized_text,
};
use crate::method::MethodRegistry;
use crate::server::{
    answer_unary, build_inbound_context, build_unary_request_frame, dispatch_unary,
    drain_handler_responses, exit_frame, finalise_streaming, frame_debug, handle_inbound_substream,
    handle_unary_stream_with_opcode_consumed, open_ack, open_refusal, opening_error,
    pump_inbound_requests, request_frame, request_reaches_its_handler, saturate,
    streaming_negotiate_open, write_error, write_response, ConnectionRoute, HandlerExit, OpenStep,
    Opening, PumpStep, ResponseSide, RpcServer, RpcServerConfig, UnaryStep, WireDispatchHandler,
    RPC_STREAM_READ_LIMIT,
};
use crate::streaming::{
    frame_bytes, frame_fits, frame_roundtrip, streaming_error_bytes, write_request_chunk,
    FrameReader, FrameView, ReadStep, StreamingError, StreamingErrorView, StreamingFrame,
    StreamingOpenRequest, StreamingOpenResponse, StreamingOpenStatus,
};
use crate::text::{debug_text, decimal, escaped_bytes, hex2};
use crate::transport::ALPN_NERW_RPC_1_0_0;
use crate::wire::{decode_method_name, MAX_METHOD_NAME_LEN, MAX_STREAMING_PAYLOAD_LEN};
use crate::wire_error::{
    codec_error_becomes_handler, error_survives_wire, internal_error_becomes_handler,
    wire_error_fits, wire_of, WireError,
};

verus! {

/// A request is `[0x00 | length | method | request bytes]`, all of the bytes.
pub proof fn requests_are_framed(name: &str, request: &[u8], r: RpcResult<Vec<u8>>)
    requires
        call_ensures(build_unary_request_frame, (name, request), r),
    ensures
        r matches Ok(b) && b@ == seq![0x00u8] + sized_text(name@) + request@,
{
    assert(request_frame(name@, request@) =~= seq![0x00u8] + sized_text(name@) + request@);
}

/// A response is `[0x01 | response bytes]`, all of the bytes, and an error response
/// `[0x02 | envelope]` with the envelope of the error.
pub proof fn responses_are_framed(
    response: &[u8],
    ok: Vec<u8>,
    e: &RpcError,
    w: WireError,
    err: Vec<u8>,
)
    requires
        call_ensures(write_response, (response,), ok),
        call_ensures(write_error, (e,), err),
        call_ensures(WireError::from_rpc_error, (e,), w),
    ensures
        ok@ == seq![0x01u8] + response@,
        err@ == seq![0x02u8] + envelope(w),
{
    lemma_envelope(w);
}

/// What a handler returned is answered as a response, or as an error response.
pub proof fn handlers_are_answered(
    result: RpcResult<Vec<u8>>,
    r: Vec<u8>,
    response: &[u8],
    ok: Vec<u8>,
    err: Vec<u8>,
)
    requires
        call_ensures(answer_unary, (result,), r),
        match result {
            Ok(b) => response@ == b@ && call_ensures(write_response, (response,), ok),
            Err(e) => call_ensures(write_error, (&e,), err),
        },
    ensures
        match result {
            Ok(_) => r@ == ok@,
            Err(_) => r@ == err@,
        },
{
}

/// The client is given the handler's bytes, all of them and untouched.
pub proof fn responses_reach_the_client(
    response: Vec<u8>,
    frame: Vec<u8>,
    buf: &[u8],
    r: RpcResult<Vec<u8>>,
)
    requires
        call_ensures(answer_unary, (Ok(response),), frame),
        buf@ == frame@,
        call_ensures(decode_response_frame, (buf,), r),
    ensures
        r matches Ok(b) && b@ == response@,
{
    assert(frame@.skip(1) =~= response@);
}

/// The client is given the error of the server: one that it can act on, or that a handler
/// returned, as it was; a codec error as a handler error that quotes it; any other as a
/// handler error with its whole message.
pub proof fn errors_reach_the_client(
    e: RpcError,
    text: String,
    frame: Vec<u8>,
    buf: &[u8],
    r: RpcResult<Vec<u8>>,
)
    requires
        call_ensures(RpcError::to_string, (&e,), text),
        call_ensures(write_error, (&e,), frame),
        buf@ == frame@,
        call_ensures(decode_response_frame, (buf,), r),
    ensures
        r matches Err(g) && match e {
            RpcError::UnknownMethod(_)
            | RpcError::VersionMismatch { .. }
            | RpcError::InvalidMethodName(_)
            | RpcError::MalformedFrame(_)
            | RpcError::Handler(_) => same_error(e, g),
            RpcError::Codec(_) => g matches RpcError::Handler(s) && exists|inner: Seq<char>|
                #![trigger "codec error: "@ + inner]
                text@ == "codec error: "@ + inner && s@ == "server codec error: "@ + inner,
            _ => g matches RpcError::Handler(s) && s@ == text@,
        },
{
    error_response_roundtrip(e@);
    let g = r->Err_0;
    match e {
        RpcError::UnknownMethod(_)
        | RpcError::VersionMismatch { .. }
        | RpcError::InvalidMethodName(_)
        | RpcError::MalformedFrame(_)
        | RpcError::Handler(_) => {
            error_survives_wire(e@);
            views_of_errors_are_faithful(e, g);
        },
        RpcError::Codec(c) => {
            codec_error_becomes_handler(c);
            let inner = codec_error_text(c);
            assert(text@ == "codec error: "@ + inner);
        },
        _ => {
            internal_error_becomes_handler(e@);
        },
    }
}

/// A response frame is told by its first byte: 0x01 is followed by the response, 0x02 by an
/// envelope, nothing at all and any other byte are refused.
pub proof fn response_frames_are_told_by_their_first_byte(
    buf: &[u8],
    r: RpcResult<Vec<u8>>,
    rest: &[u8],
    w: Result<WireError, CodecError>,
    g: RpcError,
)
    requires
        call_ensures(decode_response_frame, (buf,), r),
        rest@ == buf@.skip(1),
        call_ensures(WireError::from_bytes, (rest,), w),
        w matches Ok(x) ==> call_ensures(WireError::into_rpc_error, (x,), g),
    ensures
        buf@.len() == 0 ==> (r matches Err(RpcError::MalformedFrame(s)) && s@
            == "empty response frame"@),
        buf@.len() > 0 && buf@[0] == 0x01 ==> (r matches Ok(b) && b@ == buf@.skip(1)),
        buf@.len() > 0 && buf@[0] == 0x02 ==> match w {
            Ok(_) => r matches Err(e) && same_error(g, e),
            Err(c) => r matches Err(RpcError::Codec(d)) && c == d,
        },
        buf@.len() > 0 && buf@[0] != 0x01 && buf@[0] != 0x02 ==> (
        r matches Err(RpcError::MalformedFrame(s)) && s@ == "unexpected response opcode 0x"@
            + hex2(buf@[0])),
{
    if buf@.len() > 0 && buf@[0] == 0x02 {
        if let Ok(_) = w {
            if let Err(e) = r {
                views_of_errors_are_faithful(g, e);
            }
        }
    }
}

/// The first byte of a substream decides: 0x00 is a unary request, 0x10 opens a streaming
/// call, and any other is refused with an answer that names it.
pub proof fn first_byte_of_a_substream_decides(
    opcode: u8,
    r: Opening,
    buf: &[u8],
    answer: RpcResult<Vec<u8>>,
)
    requires
        call_ensures(handle_inbound_substream, (opcode,), r),
        r matches Opening::Refused(b) ==> buf@ == b@ && call_ensures(
            decode_response_frame,
            (buf,),
            answer,
        ),
    ensures
        opcode == 0x00 ==> r is Unary,
        opcode == 0x10 ==> r is Streaming,
        opcode != 0x00 && opcode != 0x10 ==> r is Refused && (
        answer matches Err(RpcError::MalformedFrame(s)) && s@
            == "expected unary-request (0x00) or streaming-open (0x10), got 0x"@ + hex2(opcode)),
{
    if opcode != 0x00 && opcode != 0x10 {
        let e = opening_error(opcode);
        lemma_opening_error_fits(opcode);
        refusal_reaches_client(e);
    }
}

/// The answer to a bad first byte fits the machine's address space.
proof fn lemma_opening_error_fits(opcode: u8)
    ensures
        wire_error_fits(wire_of(opening_error(opcode))),
{
    let s = "expected unary-request (0x00) or streaming-open (0x10), got 0x"@ + hex2(opcode);
    reveal_strlit("expected unary-request (0x00) or streaming-open (0x10), got 0x");
    lemma_utf8_size(s);
}

/// A character takes at most four bytes.
proof fn lemma_utf8_size(s: Seq<char>)
    ensures
        encode_utf8(s).len() <= 4 * s.len(),
    decreases s.len(),
{
    if s.len() > 0 {
        lemma_utf8_size(s.drop_first());
    }
}

/// A request whose method name has at most 4096 bytes goes to the handler that its name is
/// looked up to, with the request bytes untouched; without such a handler the error names
/// the method.
pub proof fn requests_reach_their_handlers<'a, 'b, U, S>(
    reg: &'a MethodRegistry<U, S>,
    name: &str,
    request: Seq<u8>,
    handler: Option<&'a U>,
    buf: &'b [u8],
    r: RpcResult<(&'a U, &'b [u8])>,
)
    requires
        call_ensures(MethodRegistry::<U, S>::lookup, (reg, name), handler),
        call_ensures(dispatch_unary::<U, S>, (buf, reg), r),
        encode_utf8(name@).len() <= 4096,
        buf@ == seq![0x00u8] + sized_text(name@) + request,
    ensures
        match handler {
            Some(h) => r matches Ok((g, payload)) && g == h && payload@ == request,
            None => r matches Err(RpcError::UnknownMethod(s)) && s@ == name@,
        },
{
    assert(buf@ =~= request_frame(name@, request));
    request_reaches_its_handler(reg@, name@, request);
}

/// A request goes to the handler that the name it begins with is looked up to, with what
/// follows the name.
pub proof fn requests_go_by_their_names<'a, 'b, U, S>(
    reg: &'a MethodRegistry<U, S>,
    tail: &'b [u8],
    name: &'b str,
    payload: &'b [u8],
    handler: Option<&'a U>,
    buf: &'b [u8],
    r: RpcResult<(&'a U, &'b [u8])>,
)
    requires
        call_ensures(decode_method_name, (tail,), Ok((name, payload))),
        call_ensures(MethodRegistry::<U, S>::lookup, (reg, name), handler),
        buf@ == seq![0x00u8] + tail@,
        call_ensures(dispatch_unary::<U, S>, (buf, reg), r),
    ensures
        match handler {
            Some(h) => r matches Ok((g, p)) && g == h && p@ == payload@,
            None => r matches Err(RpcError::UnknownMethod(s)) && s@ == name@,
        },
{
    assert(buf@.skip(1) =~= tail@);
}

/// What is left of a request behind its first byte is handled as the whole request is: the
/// handler is called with all of the bytes, or the error is sent back.
pub proof fn request_tails_are_handled<'a, 'b, U, S>(
    reg: &'a MethodRegistry<U, S>,
    tail: &[u8],
    buf: &'b [u8],
    whole: RpcResult<(&'a U, &'b [u8])>,
    err: Vec<u8>,
    step: UnaryStep<'a, U>,
)
    requires
        buf@ == seq![0x00u8] + tail@,
        call_ensures(dispatch_unary::<U, S>, (buf, reg), whole),
        call_ensures(handle_unary_stream_with_opcode_consumed::<U, S>, (tail, reg), step),
        whole matches Err(e) ==> call_ensures(write_error, (&e,), err),
    ensures
        match whole {
            Ok((h, bytes)) => step matches UnaryStep::Invoke { handler, payload } && handler == h
                && payload@ == bytes@,
            Err(_) => step matches UnaryStep::Reply(b) && b@ == err@,
        },
{
}

/// A frame that is no request is refused: without a byte, with another first byte, or with
/// a method name that cannot be read.
pub proof fn other_frames_are_refused<'a, 'b, U, S>(
    reg: &'a MethodRegistry<U, S>,
    buf: &'b [u8],
    tail: &'b [u8],
    name: RpcResult<(&'b str, &'b [u8])>,
    r: RpcResult<(&'a U, &'b [u8])>,
)
    requires
        call_ensures(dispatch_unary::<U, S>, (buf, reg), r),
        tail@ == buf@.skip(1),
        call_ensures(decode_method_name, (tail,), name),
    ensures
        buf@.len() == 0 ==> (r matches Err(RpcError::MalformedFrame(s)) && s@
            == "empty request frame"@),
        buf@.len() > 0 && buf@[0] != 0x00 ==> (r matches Err(RpcError::MalformedFrame(s)) && s@
            == "expected unary-request opcode 0x00, got 0x"@ + hex2(buf@[0])),
        buf@.len() > 0 && buf@[0] == 0x00 && name is Err ==> (r matches Err(g) && (
        name matches Err(e) && same_error(e, g))),
{
    if buf@.len() > 0 && buf@[0] == 0x00 {
        if let Err(e) = name {
            if let Err(g) = r {
                views_of_errors_are_faithful(e, g);
            }
        }
    }
}

/// A call begins with its substream to be opened, and has the frame of its request to send.
pub proof fn calls_begin(peer: &str, name: &str, request: &[u8], r: RpcResult<UnaryCall>)
    requires
        call_ensures(UnaryCall::start, (peer, name, request), r),
    ensures
        r matches Ok(c) && {
            &&& c.at() == CallStage::Opening
            &&& c.callee() == peer@
            &&& c.request() == seq![0x00u8] + sized_text(name@) + request@
        },
{
    assert(request_frame(name@, request@) =~= seq![0x00u8] + sized_text(name@) + request@);
}

/// A call goes through its stages in order - opening, writing, finishing, reading - with
/// the same peer and the same bytes.
pub proof fn calls_go_on(call: UnaryCall, r: CallStep, stage: CallStage, frame: &[u8])
    requires
        call.at() != CallStage::Reading,
        call_ensures(UnaryCall::step, (call, CallEvent::Done), r),
        call_ensures(UnaryCall::stage, (&call,), stage),
        call_ensures(UnaryCall::frame, (&call,), frame),
    ensures
        call_requires(UnaryCall::step, (call, CallEvent::Done)),
        stage == call.at(),
        frame@ == call.request(),
        r matches CallStep::Next(next) && {
            &&& next.callee() == call.callee()
            &&& next.request() == call.request()
            &&& stage == CallStage::Opening ==> next.at() == CallStage::Writing
            &&& stage == CallStage::Writing ==> next.at() == CallStage::Finishing
            &&& stage == CallStage::Finishing ==> next.at() == CallStage::Reading
        },
{
}

/// A call whose response was read returns what the response frame says, and keeps the
/// connection.
pub proof fn calls_return_the_response(
    call: UnaryCall,
    received: Vec<u8>,
    r: CallStep,
    buf: &[u8],
    decoded: RpcResult<Vec<u8>>,
)
    requires
        call.at() == CallStage::Reading,
        call_ensures(UnaryCall::step, (call, CallEvent::Received(received)), r),
        buf@ == received@,
        call_ensures(decode_response_frame, (buf,), decoded),
    ensures
        call_requires(UnaryCall::step, (call, CallEvent::Received(received))),
        r matches CallStep::Over { result, evict } && {
            &&& !evict
            &&& match decoded {
                Ok(b) => result matches Ok(c) && b@ == c@,
                Err(e) => result matches Err(g) && same_error(e, g),
            }
        },
{
    if let CallStep::Over { result: Err(g), .. } = r {
        if let Err(e) = decoded {
            views_of_errors_are_faithful(e, g);
        }
    }
}

/// A call whose step failed returns an error that says which step and why, and gives the
/// connection up unless it was the opening that failed.
pub proof fn failed_calls_say_why(call: UnaryCall, reason: String, r: CallStep)
    requires
        call_ensures(UnaryCall::step, (call, CallEvent::Failed(reason)), r),
    ensures
        r matches CallStep::Over { result: Err(e), evict } && {
            &&& evict == (call.at() != CallStage::Opening)
            &&& match call.at() {
                CallStage::Opening => {
                    e matches RpcError::TransportOpenSubstream { node_id, reason: s } && node_id@
                        == call.callee() && s@ == reason@
                },
                CallStage::Writing => e matches RpcError::TransportWrite { reason: s } && s@
                    == "write_all: "@ + reason@,
                CallStage::Finishing => e matches RpcError::TransportWrite { reason: s } && s@
                    == "finish: "@ + reason@,
                CallStage::Reading => e matches RpcError::TransportRead { reason: s } && s@
                    == "read_to_end: "@ + reason@,
            }
        },
{
}

/// Only a failed read or write of an established stream is an error of the transport.
pub proof fn transport_errors(e: &RpcError, r: bool)
    requires
        call_ensures(is_transport_io_error, (e,), r),
    ensures
        r <==> *e is TransportRead || *e is TransportWrite,
{
}

/// A protocol that was given a handler is routed to it, whatever it had before, and every
/// other protocol as it was; the number of protocols grows by one if this one had none.
pub proof fn protocols_are_routed<U, S>(
    server: &mut RpcServer<U, S>,
    alpn: &[u8],
    handler: u64,
    before: &RpcServer<U, S>,
    after: &RpcServer<U, S>,
    other: &[u8],
    route: ConnectionRoute,
    was: ConnectionRoute,
    is: ConnectionRoute,
    count: usize,
    counted: usize,
)
    requires
        call_ensures(RpcServer::<U, S>::register_alpn_handler, (server, alpn, handler), ()),
        *before == *old(server),
        *after == *final(server),
        call_ensures(RpcServer::<U, S>::route_connection, (after, alpn), route),
        call_ensures(RpcServer::<U, S>::route_connection, (before, other), was),
        call_ensures(RpcServer::<U, S>::route_connection, (after, other), is),
        call_ensures(RpcServer::<U, S>::registered_alpn_count, (before,), count),
        call_ensures(RpcServer::<U, S>::registered_alpn_count, (after,), counted),
        other@ != alpn@,
    ensures
        route == ConnectionRoute::Handler(handler),
        was == is,
        counted == (if before.protocols().dom().contains(alpn@) {
            count as int
        } else {
            count + 1
        }),
        after.is_serving() == before.is_serving(),
        after.limits() == before.limits(),
        after.methods() == before.methods(),
{
}

/// A connection on a protocol without a handler is closed with code 1.
pub proof fn unknown_protocols_are_closed<U, S>(
    server: &RpcServer<U, S>,
    alpn: &[u8],
    route: ConnectionRoute,
)
    requires
        call_ensures(RpcServer::<U, S>::route_connection, (server, alpn), route),
    ensures
        server.protocols().dom().contains(alpn@) ==> route == ConnectionRoute::Handler(
            server.protocols()[alpn@],
        ),
        !server.protocols().dom().contains(alpn@) ==> route == ConnectionRoute::Close(1),
{
}

/// A server that begins to serve routes `nerw/rpc/1.0.0` to its own handler and leaves the
/// other protocols alone; one that serves refuses and changes nothing.
pub proof fn serving_starts_once<U, S>(
    server: &mut RpcServer<U, S>,
    wire_handler: u64,
    r: RpcResult<()>,
    after: &RpcServer<U, S>,
    alpn: &[u8],
    route: ConnectionRoute,
    other: Seq<u8>,
    before: &RpcServer<U, S>,
    count: usize,
    counted: usize,
)
    requires
        call_ensures(RpcServer::<U, S>::serve, (server, wire_handler), r),
        *before == *old(server),
        call_ensures(RpcServer::<U, S>::registered_alpn_count, (before,), count),
        call_ensures(RpcServer::<U, S>::registered_alpn_count, (after,), counted),
        *after == *final(server),
        alpn@ == seq![
            0x6eu8, 0x65, 0x72, 0x77, 0x2f, 0x72, 0x70, 0x63, 0x2f, 0x31, 0x2e, 0x30, 0x2e, 0x30,
        ],
        call_ensures(RpcServer::<U, S>::route_connection, (after, alpn), route),
        other != alpn@,
    ensures
        final(server).is_serving(),
        final(server).limits() == old(server).limits(),
        final(server).methods() == old(server).methods(),
        old(server).is_serving() ==> (r matches Err(RpcError::AlreadyServing))
            && final(server).protocols() == old(server).protocols() && counted == count,
        !old(server).is_serving() ==> {
            &&& r is Ok
            &&& route == ConnectionRoute::Handler(wire_handler)
            &&& counted == (if before.protocols().dom().contains(alpn@) {
                count as int
            } else {
                count + 1
            })
            &&& final(server).protocols().dom().contains(other)
                <==> old(server).protocols().dom().contains(other)
            &&& final(server).protocols()[other] == old(server).protocols()[other]
        },
{
    assert(alpn@ =~= ALPN_NERW_RPC_1_0_0@);
}

/// A new server serves nothing yet, has no protocols, and has the methods and limits that it
/// was given: 256 substreams and 1024 connections at once unless other limits were given.
pub proof fn servers_begin_idle<U, S>(
    methods: Arc<MethodRegistry<U, S>>,
    config: RpcServerConfig,
    plain: RpcServer<U, S>,
    configured: RpcServer<U, S>,
    count: usize,
)
    requires
        call_ensures(RpcServer::<U, S>::registered_alpn_count, (&configured,), count),
        call_ensures(RpcServer::<U, S>::new, (methods,), plain),
        call_ensures(RpcServer::<U, S>::with_config, (methods, config), configured),
    ensures
        plain.limits().max_concurrent_streams == 256,
        plain.limits().max_concurrent_connections == 1024,
        configured.limits() == config,
        count == 0,
        plain.methods() == methods@ && configured.methods() == methods@,
        !plain.is_serving() && !configured.is_serving(),
        forall|alpn: Seq<u8>|
            !(#[trigger] plain.protocols().dom().contains(alpn)),
        forall|alpn: Seq<u8>|
            !(#[trigger] configured.protocols().dom().contains(alpn)),
{
}

/// Connections are numbered one after the other, from 1 on; after the largest number comes
/// 0.
pub proof fn connections_are_numbered(
    fresh: WireDispatchHandler,
    handler: &mut WireDispatchHandler,
    first: u64,
    next: &mut WireDispatchHandler,
    second: u64,
)
    requires
        call_ensures(WireDispatchHandler::new, (), fresh),
        call_ensures(WireDispatchHandler::number_connection, (handler,), first),
        *old(next) == *final(handler),
        call_ensures(WireDispatchHandler::number_connection, (next,), second),
    ensures
        *old(handler) == fresh ==> first == 1,
        first < u64::MAX ==> second == first + 1,
        first == u64::MAX ==> second == 0,
{
}

/// A number is kept where it fits 64 bits and cut to the largest otherwise.
pub proof fn saturated_numbers(v: u128, r: u64)
    requires
        call_ensures(saturate, (v,), r),
    ensures
        v <= 0xffff_ffff_ffff_ffff ==> r == v,
        v > 0xffff_ffff_ffff_ffff ==> r == 0xffff_ffff_ffff_ffff,
{
}

/// The context of a call carries the connection it came over and when it came, and nothing
/// about who calls beyond the peer's key.
pub proof fn contexts_carry_the_connection(
    remote: NodeId,
    unix_ms: Option<u128>,
    since_accept_ns: u128,
    connection_id: u64,
    stream_id: u64,
    decode_us: u64,
    r: RpcContext,
)
    requires
        call_ensures(
            build_inbound_context,
            (remote, unix_ms, since_accept_ns, connection_id, stream_id, decode_us),
            r,
        ),
    ensures
        r.peer.node_id@ == remote@,
        r.peer.connection_id == connection_id,
        r.peer.stream_id == stream_id,
        r.peer.alpn@ == seq![
            0x6eu8, 0x65, 0x72, 0x77, 0x2f, 0x72, 0x70, 0x63, 0x2f, 0x31, 0x2e, 0x30, 0x2e, 0x30,
        ],
        r.peer.handshake_at_ms == r.timing.received_at_ms,
        match unix_ms {
            Some(ms) => if ms <= 0x7fff_ffff_ffff_ffff {
                r.timing.received_at_ms == ms
            } else {
                r.timing.received_at_ms == 0
            },
            None => r.timing.received_at_ms == 0,
        },
        since_accept_ns <= 0xffff_ffff_ffff_ffff ==> r.timing.received_at_monotonic_ns
            == since_accept_ns,
        since_accept_ns > 0xffff_ffff_ffff_ffff ==> r.timing.received_at_monotonic_ns
            == 0xffff_ffff_ffff_ffff,
        r.timing.frame_decode_duration_us == decode_us,
        r.peer.tls_cipher_suite is None && r.auth is None && r.session is None,
        r.tracing.parent_span_id is None && r.tracing.correlation_id is None
            && !r.tracing.sampled,
        r.tracing.trace_id != 0 && r.tracing.span_id != 0,
{
    assert(ALPN_NERW_RPC_1_0_0@ =~= seq![
        0x6eu8, 0x65, 0x72, 0x77, 0x2f, 0x72, 0x70, 0x63, 0x2f, 0x31, 0x2e, 0x30, 0x2e, 0x30,
    ]);
    fresh_ids_are_not_nil(r.tracing);
}

/// An opening of a registered streaming method is accepted, and runs the handler that the
/// method is looked up to; the acknowledgement carries the number of the opening. Any other
/// opening is refused with a reason that names the method, under the same number.
pub proof fn openings_are_answered<'a, U, S>(
    reg: &'a MethodRegistry<U, S>,
    open: StreamingOpenRequest,
    name: &str,
    found: Option<&'a S>,
    step: OpenStep<'a, S>,
    ack: StreamingOpenResponse,
)
    requires
        name@ == open.method_name@,
        call_ensures(MethodRegistry::<U, S>::lookup_streaming, (reg, name), found),
        call_ensures(
            streaming_negotiate_open::<U, S>,
            (Ok(StreamingFrame::OpenRequest(open)), reg),
            step,
        ),
        ack.request_id == open.request_id,
        match found {
            Some(_) => ack.status is Accepted,
            None => ack.status matches StreamingOpenStatus::Refused(s) && s@
                == "unknown streaming method: "@ + open.method_name@,
        },
    ensures
        match found {
            Some(h) => step matches OpenStep::Accept { handler, reply } && handler == h && reply@
                == layout(StreamingFrame::OpenResponse(ack)),
            None => step matches OpenStep::Refuse { reply } && reply@ == layout(
                StreamingFrame::OpenResponse(ack),
            ),
        },
{
    lemma_layout(StreamingFrame::OpenResponse(ack));
}

/// The client reads in the answer to its opening the number that it gave the call, and
/// whether it was accepted.
#[verifier::rlimit(40)]
pub proof fn answers_carry_the_number<'a, U, S>(
    reg: &'a MethodRegistry<U, S>,
    open: StreamingOpenRequest,
    name: &str,
    found: Option<&'a S>,
    step: OpenStep<'a, S>,
    sent: Seq<u8>,
    reader: FrameReader,
    bytes: &[u8],
    read: ReadStep,
)
    requires
        name@ == open.method_name@,
        call_ensures(MethodRegistry::<U, S>::lookup_streaming, (reg, name), found),
        call_ensures(
            streaming_negotiate_open::<U, S>,
            (Ok(StreamingFrame::OpenRequest(open)), reg),
            step,
        ),
        sent == (match step {
            OpenStep::Accept { reply, .. } => reply@,
            OpenStep::Refuse { reply } => reply@,
        }),
        sent.len() <= 8_388_608,
        reader.seen() + bytes@ == sent,
        call_ensures(FrameReader::feed, (reader, bytes), read),
    ensures
        read matches ReadStep::Frame(StreamingFrame::OpenResponse(v)) && {
            &&& v.request_id == open.request_id
            &&& v.status is Accepted <==> found is Some
            &&& v.status matches StreamingOpenStatus::Refused(s) ==> s@
                == "unknown streaming method: "@ + open.method_name@
        },
{
    lemma_answer_fits(sent, open, found is Some);
    frame_roundtrip(
        if found is Some {
            FrameView::OpenResponse(open_ack(open@))
        } else {
            FrameView::OpenResponse(open_refusal(open@))
        },
    );
}

/// The bytes of an answer hold its texts.
proof fn lemma_answer_fits(sent: Seq<u8>, open: StreamingOpenRequest, accepted: bool)
    requires
        sent.len() <= 8_388_608,
        sent == frame_bytes(
            if accepted {
                FrameView::OpenResponse(open_ack(open@))
            } else {
                FrameView::OpenResponse(open_refusal(open@))
            },
        ),
    ensures
        frame_fits(
            if accepted {
                FrameView::OpenResponse(open_ack(open@))
            } else {
                FrameView::OpenResponse(open_refusal(open@))
            },
        ),
{
}

/// How a frame reads in an error message.
pub open spec fn shown(f: StreamingFrame) -> Seq<char> {
    match f {
        StreamingFrame::OpenRequest(v) => "OpenRequest(StreamingOpenRequest { method_name: "@
            + debug_text(v.method_name@) + ", request_id: "@ + decimal(v.request_id as nat)
            + " })"@,
        StreamingFrame::OpenResponse(v) => "OpenResponse(StreamingOpenResponse { status: "@ + (
        match v.status {
            StreamingOpenStatus::Accepted => "Ok"@,
            StreamingOpenStatus::Refused(s) => "Err("@ + debug_text(s@) + ")"@,
        }) + ", request_id: "@ + decimal(v.request_id as nat) + " })"@,
        StreamingFrame::RequestChunk(b) => "RequestChunk("@ + (seq!['b', '"'] + escaped_bytes(b@)
            + seq!['"']) + ")"@,
        StreamingFrame::ResponseChunk(b) => "ResponseChunk("@ + (seq!['b', '"'] + escaped_bytes(b@)
            + seq!['"']) + ")"@,
        StreamingFrame::RequestEnd => "RequestEnd"@,
        StreamingFrame::ResponseEnd => "ResponseEnd"@,
        StreamingFrame::Error(v) => "Error(StreamingError { message: "@ + debug_text(v.message@)
            + ", terminal: "@ + (if v.terminal {
            "true"@
        } else {
            "false"@
        }) + " })"@,
    }
}

/// An opening that could not be read is refused with an error frame that ends the stream
/// and says why.
pub proof fn unread_openings_are_answered<'a, U, S>(
    reg: &'a MethodRegistry<U, S>,
    e: RpcError,
    text: String,
    step: OpenStep<'a, S>,
)
    requires
        call_ensures(streaming_negotiate_open::<U, S>, (Err(e), reg), step),
        call_ensures(RpcError::to_string, (&e,), text),
    ensures
        step matches OpenStep::Refuse { reply } && reply@ == seq![0x40u8] + sized(
            error_body(text@, true),
        ),
{
    let v = StreamingErrorView { message: text@, terminal: true };
    assert(streaming_error_bytes(v) =~= error_body(text@, true));
    assert(frame_bytes(FrameView::Error(v)) =~= seq![0x40u8] + sized(error_body(text@, true)));
}

/// An opening that is another frame is refused with an error frame that ends the stream and
/// shows the frame.
pub proof fn stray_openings_are_answered<'a, U, S>(
    reg: &'a MethodRegistry<U, S>,
    f: StreamingFrame,
    step: OpenStep<'a, S>,
)
    requires
        call_ensures(streaming_negotiate_open::<U, S>, (Ok(f), reg), step),
        !(f is OpenRequest),
    ensures
        step matches OpenStep::Refuse { reply } && reply@ == seq![0x40u8] + sized(
            error_body(
                "malformed wire frame: expected open-request body, got "@ + shown(f),
                true,
            ),
        ),
{
    let rest = shown(f);
    assert(frame_debug(f@) == rest);
    let inner = "expected open-request body, got "@ + rest;
    let whole = "malformed wire frame: expected open-request body, got "@ + rest;
    reveal_strlit("malformed wire frame: ");
    reveal_strlit("expected open-request body, got ");
    reveal_strlit("malformed wire frame: expected open-request body, got ");
    assert("malformed wire frame: "@ + inner =~= whole);
    let v = StreamingErrorView { message: whole, terminal: true };
    assert(streaming_error_bytes(v) =~= error_body(whole, true));
    assert(frame_bytes(FrameView::Error(v)) =~= seq![0x40u8] + sized(error_body(whole, true)));
}

/// A chunk of the client is handed to the handler byte for byte, whatever its length, and
/// reading goes on.
pub proof fn chunks_reach_the_handler(chunk: Vec<u8>, r: PumpStep)
    requires
        call_ensures(
            pump_inbound_requests,
            (Ok(Some(StreamingFrame::RequestChunk(chunk))),),
            r,
        ),
    ensures
        r.forward matches Some(Ok(b)) && b@ == chunk@,
        !r.done,
{
}

/// What the client wrote as a chunk is what the handler is handed.
#[verifier::rlimit(40)]
pub proof fn written_chunks_reach_the_handler(
    chunk: &[u8],
    buf: &mut Vec<u8>,
    reader: FrameReader,
    bytes: &[u8],
    frame: StreamingFrame,
    r: PumpStep,
)
    requires
        call_ensures(write_request_chunk, (buf, chunk), ()),
        old(buf)@.len() == 0,
        chunk@.len() <= 8_388_608,
        reader.seen() + bytes@ == final(buf)@,
        call_ensures(FrameReader::feed, (reader, bytes), ReadStep::Frame(frame)),
        call_ensures(pump_inbound_requests, (Ok(Some(frame)),), r),
    ensures
        r.forward matches Some(Ok(b)) && b@ == chunk@,
        !r.done,
{
    assert(final(buf)@ =~= seq![0x20u8] + sized(chunk@));
    chunks_are_read_whole(
        0x20,
        chunk@,
        reader,
        bytes,
        ReadStep::Frame(frame),
    );
}

/// The client's end, and the end of the stream, end the handler's input without a word.
pub proof fn ends_reach_the_handler(r: PumpStep, s: PumpStep)
    requires
        call_ensures(pump_inbound_requests, (Ok(Some(StreamingFrame::RequestEnd)),), r),
        call_ensures(pump_inbound_requests, (Ok(None),), s),
    ensures
        r.forward is None && r.done,
        s.forward is None && s.done,
{
}

/// An error of the client is handed to the handler with its message, and ends the input if
/// it is terminal; a failed read is handed over as it is, and ends the input.
pub proof fn errors_reach_the_handler(v: StreamingError, r: PumpStep, e: RpcError, s: PumpStep)
    requires
        call_ensures(pump_inbound_requests, (Ok(Some(StreamingFrame::Error(v))),), r),
        call_ensures(pump_inbound_requests, (Err(e),), s),
    ensures
        r.forward matches Some(Err(RpcError::Handler(m))) && m@ == v.message@,
        r.done == v.terminal,
        s.forward matches Some(Err(g)) && same_error(e, g),
        s.done,
{
    if let Some(Err(g)) = s.forward {
        views_of_errors_are_faithful(e, g);
    }
}

/// A frame that a client has no business sending is handed over as a malformed frame that
/// shows it, and ends the input.
pub proof fn stray_frames_end_the_input(f: StreamingFrame, r: PumpStep)
    requires
        call_ensures(pump_inbound_requests, (Ok(Some(f)),), r),
        f is OpenRequest || f is OpenResponse || f is ResponseChunk || f is ResponseEnd,
    ensures
        r.forward matches Some(Err(RpcError::MalformedFrame(s))) && s@
            == "unexpected client\u{2192}server frame: "@ + shown(f),
        r.done,
{
    assert(frame_debug(f@) == shown(f));
}

/// The frame that ends a call is the end frame if and only if the handler finished without
/// an error; a handler's error is sent as a terminal error with the text of the error, and a
/// lost handler as a terminal error that says so.
pub proof fn ends_tell_how_the_handler_ended(
    exit: HandlerExit,
    text: String,
    error: StreamingError,
    r: Vec<u8>,
)
    requires
        call_ensures(finalise_streaming, (exit,), r),
        exit matches HandlerExit::Failed(e) ==> call_ensures(RpcError::to_string, (&e,), text)
            && error.message@ == text@,
        exit matches HandlerExit::Lost(s) ==> error.message@
            == "streaming handler join failure: "@ + s@,
        error.terminal,
    ensures
        exit is Finished <==> r@ == seq![0x31u8],
        !(exit is Finished) ==> r@ == layout(StreamingFrame::Error(error)),
{
    lemma_layout(StreamingFrame::Error(error));
    let b = layout(StreamingFrame::Error(error));
    assert(b[0] == 0x40u8);
    assert(seq![0x31u8][0] == 0x31u8);
}

/// The client reads how the handler ended: a clean end only where it finished without an
/// error, and otherwise the text of its error.
#[verifier::rlimit(40)]
pub proof fn clients_read_how_the_handler_ended(
    exit: HandlerExit,
    text: String,
    r: Vec<u8>,
    reader: FrameReader,
    bytes: &[u8],
    read: ReadStep,
)
    requires
        call_ensures(finalise_streaming, (exit,), r),
        exit matches HandlerExit::Failed(e) ==> call_ensures(RpcError::to_string, (&e,), text),
        r@.len() <= 8_388_608,
        reader.seen() + bytes@ == r@,
        call_ensures(FrameReader::feed, (reader, bytes), read),
    ensures
        exit is Finished ==> read matches ReadStep::Frame(StreamingFrame::ResponseEnd),
        exit is Failed ==> (read matches ReadStep::Frame(StreamingFrame::Error(v)) && v.terminal
            && v.message@ == text@),
        exit matches HandlerExit::Lost(s) ==> (read matches ReadStep::Frame(
            StreamingFrame::Error(v),
        ) && v.terminal && v.message@ == "streaming handler join failure: "@ + s@),
{
    frame_roundtrip(exit_frame(exit));
}

/// An item of the handler is sent as a chunk with all of its bytes; an error is sent as a
/// terminal error with its text, and ends the stream.
pub proof fn items_are_sent(
    chunk: Vec<u8>,
    r: (Vec<u8>, bool),
    e: RpcError,
    text: String,
    error: StreamingError,
    s: (Vec<u8>, bool),
)
    requires
        call_ensures(drain_handler_responses, (Ok(chunk),), r),
        call_ensures(drain_handler_responses, (Err(e),), s),
        call_ensures(RpcError::to_string, (&e,), text),
        error.message@ == text@ && error.terminal,
    ensures
        r.0@ == seq![0x21u8] + sized(chunk@) && !r.1,
        s.0@ == layout(StreamingFrame::Error(error)) && s.1,
{
    lemma_layout(StreamingFrame::ResponseChunk(chunk));
    lemma_layout(StreamingFrame::Error(error));
}

/// As long as the server's half is open, it sends the frame of each item, and the frame of
/// the handler's end; an error and the end close it. Once it is closed nothing is sent.
pub proof fn responses_stop_at_the_end(
    side: ResponseSide,
    item: RpcResult<Vec<u8>>,
    framed: (Vec<u8>, bool),
    r: (ResponseSide, Option<Vec<u8>>),
    exit: HandlerExit,
    last: Vec<u8>,
    s: (ResponseSide, Option<Vec<u8>>),
    open: bool,
    fresh: ResponseSide,
    failed: ResponseSide,
)
    requires
        call_ensures(ResponseSide::item, (side, item), r),
        call_ensures(drain_handler_responses, (item,), framed),
        call_ensures(ResponseSide::exit, (side, exit), s),
        call_ensures(finalise_streaming, (exit,), last),
        call_ensures(ResponseSide::may_send, (&side,), open),
        call_ensures(ResponseSide::new, (), fresh),
        call_ensures(ResponseSide::write_failed, (side,), failed),
    ensures
        open ==> (r.1 matches Some(b) && b@ == framed.0@) && (r.0.is_open() <==> item is Ok),
        open ==> (s.1 matches Some(b) && b@ == last@),
        !open ==> r.1 is None && s.1 is None && !r.0.is_open(),
        !s.0.is_open(),
        open <==> side.is_open(),
        fresh.is_open(),
        !failed.is_open(),
{
}

/// Only the last frame that the server sends may end the stream: all others are chunks.
pub proof fn only_the_last_frame_ends_the_stream(
    side: ResponseSide,
    item: RpcResult<Vec<u8>>,
    r: (ResponseSide, Option<Vec<u8>>),
    exit: HandlerExit,
    s: (ResponseSide, Option<Vec<u8>>),
)
    requires
        call_ensures(ResponseSide::item, (side, item), r),
        call_ensures(ResponseSide::exit, (side, exit), s),
    ensures
        forall|i: int|
            0 <= i < r.0.sent().len() - 1 ==> #[trigger] r.0.sent()[i] is ResponseChunk,
        forall|i: int|
            0 <= i < s.0.sent().len() - 1 ==> #[trigger] s.0.sent()[i] is ResponseChunk,
        side.is_open() ==> r.0.sent().len() == side.sent().len() + 1 && r.0.sent().drop_last()
            == side.sent(),
        side.is_open() ==> s.0.sent().len() == side.sent().len() + 1 && s.0.sent().drop_last()
            == side.sent(),
        side.is_open() && item is Err ==> (r.0.sent().last() matches FrameView::Error(v)
            && v.terminal),
        side.is_open() && exit is Finished ==> s.0.sent().last() is ResponseEnd,
        side.is_open() && !(exit is Finished) ==> (s.0.sent().last() matches FrameView::Error(v)
            && v.terminal),
{
    if side.is_open() {
        assert(r.0.sent().drop_last() =~= side.sent());
        assert(s.0.sent().drop_last() =~= side.sent());
    }
}

/// A terminal error made of anything that displays carries what it displays as.
pub proof fn displayed_errors_are_terminal<E: std::fmt::Display>(e: &E, r: StreamingError)
    requires
        call_ensures(StreamingError::terminal_from::<E>, (e,), r),
    ensures
        r.terminal,
        to_string_from_display_ensures::<E>(e, r.message),
{
}

/// A server hands out the methods and limits that it was made with.
pub proof fn servers_hand_out_what_they_have<U, S>(
    methods: Arc<MethodRegistry<U, S>>,
    config: RpcServerConfig,
    server: RpcServer<U, S>,
    m: &Arc<MethodRegistry<U, S>>,
    c: &RpcServerConfig,
    standard: RpcServerConfig,
)
    requires
        call_ensures(RpcServer::<U, S>::with_config, (methods, config), server),
        call_ensures(RpcServer::<U, S>::registry, (&server,), m),
        call_ensures(RpcServer::<U, S>::config, (&server,), c),
        call_ensures(<RpcServerConfig as Default>::default, (), standard),
    ensures
        m@ == methods@,
        *c == config,
        standard.max_concurrent_streams == 256,
        standard.max_concurrent_connections == 1024,
{
}

/// How large names, frames and whole responses may be.
pub proof fn sizes_are_limited()
    ensures
        MAX_METHOD_NAME_LEN == 4096,
        MAX_STREAMING_PAYLOAD_LEN == 8_388_608,
        RPC_STREAM_READ_LIMIT == 8_388_608,
        RPC_RESPONSE_READ_LIMIT == 8_388_608,
{
}

/// No request, response, frame or end is beyond the server and the client: each operation
/// takes every input.
pub proof fn calls_take_every_input<'a, U, S>(
    reg: &'a MethodRegistry<U, S>,
    name: &str,
    bytes: &[u8],
    e: &RpcError,
    result: RpcResult<Vec<u8>>,
    opcode: u8,
    open: RpcResult<StreamingFrame>,
    read: RpcResult<Option<StreamingFrame>>,
    exit: HandlerExit,
    side: ResponseSide,
    server: &'a RpcServer<U, S>,
)
    ensures
        call_requires(build_unary_request_frame, (name, bytes)),
        call_requires(write_response, (bytes,)),
        call_requires(write_error, (e,)),
        call_requires(answer_unary, (result,)),
        call_requires(decode_response_frame, (bytes,)),
        call_requires(handle_inbound_substream, (opcode,)),
        call_requires(dispatch_unary::<U, S>, (bytes, reg)),
        call_requires(handle_unary_stream_with_opcode_consumed::<U, S>, (bytes, reg)),
        call_requires(streaming_negotiate_open::<U, S>, (open, reg)),
        call_requires(pump_inbound_requests, (read,)),
        call_requires(drain_handler_responses, (result,)),
        call_requires(finalise_streaming, (exit,)),
        call_requires(ResponseSide::item, (side, result)),
        call_requires(ResponseSide::exit, (side, exit)),
        call_requires(RpcServer::<U, S>::route_connection, (server, bytes)),
        call_requires(UnaryCall::start, (name, name, bytes)),
{
}

} // verus!
