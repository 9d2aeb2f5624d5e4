//! The serving side: what a server does with connections, substreams and frames.
//!
//! Nothing here touches a socket. The caller reads and writes; the functions say what an
//! opening byte means, which handler a request goes to, which bytes answer it, and how a
//! streaming call ends.
use std::sync::Arc;

use dashmap::DashMap;
use vstd::prelude::*;
use vstd::utf8::encode_utf8;

use crate::codec::text_field;
use crate::context::{is_fresh, NodeId, PeerMetadata, RpcContext, TimingInfo, TracingInfo};
use crate::error::{error_text, RpcError, RpcErrorView, RpcResult};
use crate::method::{resolve_streaming, resolve_unary, HandlerEntry, MethodRegistry};
use crate::streaming::{
    frame_bytes, handler_err_to_terminal, write_open_response, write_response_chunk,
    write_response_end, write_streaming_error, FrameView, OpenRequestView, OpenResponseView,
    StreamingError, StreamingErrorView, StreamingFrame, StreamingOpenResponse, StreamingOpenStatus,
};
use crate::text::{
    debug_bytes, debug_quoted, debug_text, decimal, decimal_text, escaped_bytes, hex2, hex2_text,
    join2, join3,
};
use crate::transport::ALPN_NERW_RPC_1_0_0;
use crate::wire::{
    decode_method_name, encode_method_name, method_name_roundtrip, parse_method_name,
    MAX_METHOD_NAME_LEN, OPCODE_STREAMING_OPEN_REQUEST, OPCODE_UNARY_ERROR, OPCODE_UNARY_REQUEST,
    OPCODE_UNARY_RESPONSE,
};
use crate::wire_error::{wire_error_bytes, wire_error_fits, wire_of, WireError};

verus! {

/// Upper bound on what is read from one unary substream, in bytes.
pub const RPC_STREAM_READ_LIMIT: usize = 8 * 1024 * 1024;

/// How many substreams are served at once unless the caller says otherwise.
pub const DEFAULT_MAX_CONCURRENT_STREAMS: usize = 256;

/// How many connections are served at once unless the caller says otherwise.
pub const DEFAULT_MAX_CONCURRENT_CONNECTIONS: usize = 1024;

/// Code that a connection is closed with when its protocol has no handler.
pub const CLOSE_NO_HANDLER: u32 = 1;

/// Limits of a server.
#[derive(Clone, Copy, Debug, PartialEq, Eq, Structural)]
pub struct RpcServerConfig {
    /// How many substreams are served at once.
    pub max_concurrent_streams: usize,
    /// How many connections are served at once.
    pub max_concurrent_connections: usize,
}

impl Default for RpcServerConfig {
    fn default() -> (r: Self)
        ensures
            r.max_concurrent_streams == DEFAULT_MAX_CONCURRENT_STREAMS,
            r.max_concurrent_connections == DEFAULT_MAX_CONCURRENT_CONNECTIONS,
    {
        RpcServerConfig {
            max_concurrent_streams: DEFAULT_MAX_CONCURRENT_STREAMS,
            max_concurrent_connections: DEFAULT_MAX_CONCURRENT_CONNECTIONS,
        }
    }
}

/// What a map from protocols to handlers holds.
pub uninterp spec fn protocol_map(m: DashMap<Vec<u8>, u64>) -> Map<Seq<u8>, u64>;

/// `dashmap::DashMap::new`: an empty map.
#[verifier::external_body]
fn protocols_new() -> (r: DashMap<Vec<u8>, u64>)
    ensures
        protocol_map(r) =~= Map::empty(),
{
    DashMap::new()
}

/// `dashmap::DashMap::insert`: the key has the value afterwards, whatever it had before.
#[verifier::external_body]
fn protocols_insert(m: &mut DashMap<Vec<u8>, u64>, key: &[u8], value: u64)
    ensures
        protocol_map(*final(m)) == protocol_map(*old(m)).insert(key@, value),
{
    m.insert(key.to_vec(), value);
}

/// `dashmap::DashMap::get`: the value of the key, copied.
#[verifier::external_body]
fn protocols_get(m: &DashMap<Vec<u8>, u64>, key: &[u8]) -> (r: Option<u64>)
    ensures
        r == (if protocol_map(*m).dom().contains(key@) {
            Some(protocol_map(*m)[key@])
        } else {
            None
        }),
{
    match m.get(key) {
        Some(entry) => Some(*entry),
        None => None,
    }
}

/// `dashmap::DashMap::len`: how many keys there are.
#[verifier::external_body]
fn protocols_len(m: &DashMap<Vec<u8>, u64>) -> (r: usize)
    ensures
        r == protocol_map(*m).len(),
{
    m.len()
}

/// What becomes of a connection.
#[derive(Clone, Copy, Debug, PartialEq, Eq, Structural)]
pub enum ConnectionRoute {
    /// It goes to a handler.
    Handler(u64),
    /// It is closed with the code.
    Close(u32),
}

/// What becomes of a connection, given the handlers of protocols.
pub open spec fn connection_route(handlers: Map<Seq<u8>, u64>, alpn: Seq<u8>) -> ConnectionRoute {
    if handlers.dom().contains(alpn) {
        ConnectionRoute::Handler(handlers[alpn])
    } else {
        ConnectionRoute::Close(CLOSE_NO_HANDLER)
    }
}

/// How many protocols have a handler once `alpn` has one: one more, unless it had one.
pub open spec fn grown_count(handlers: Map<Seq<u8>, u64>, alpn: Seq<u8>) -> nat {
    if handlers.dom().contains(alpn) {
        handlers.len()
    } else {
        handlers.len() + 1
    }
}

/// A server: its methods, its limits, and the handlers of protocols, which are known here
/// by numbers that the caller gives them.
pub struct RpcServer<U, S> {
    registry: Arc<MethodRegistry<U, S>>,
    config: RpcServerConfig,
    alpn_handlers: DashMap<Vec<u8>, u64>,
    serving: bool,
}

impl<U, S> RpcServer<U, S> {
    #[verifier::type_invariant]
    spec fn inv(self) -> bool {
        protocol_map(self.alpn_handlers).dom().finite()
    }

    /// The registered methods.
    pub closed spec fn methods(&self) -> Map<Seq<char>, HandlerEntry<U, S>> {
        self.registry@
    }

    /// The limits.
    pub closed spec fn limits(&self) -> RpcServerConfig {
        self.config
    }

    /// The handlers of protocols.
    pub closed spec fn protocols(&self) -> Map<Seq<u8>, u64> {
        protocol_map(self.alpn_handlers)
    }

    /// Whether the server serves.
    pub closed spec fn is_serving(&self) -> bool {
        self.serving
    }

    /// A server with default limits that does not serve yet.
    pub fn new(registry: Arc<MethodRegistry<U, S>>) -> (r: Self)
        ensures
            r.methods() == registry@,
            r.limits().max_concurrent_streams == DEFAULT_MAX_CONCURRENT_STREAMS,
            r.limits().max_concurrent_connections == DEFAULT_MAX_CONCURRENT_CONNECTIONS,
            r.protocols() == Map::<Seq<u8>, u64>::empty(),
            !r.is_serving(),
    {
        RpcServer::with_config(registry, RpcServerConfig::default())
    }

    /// A server with the given limits that does not serve yet.
    pub fn with_config(registry: Arc<MethodRegistry<U, S>>, config: RpcServerConfig) -> (r: Self)
        ensures
            r.methods() == registry@,
            r.limits() == config,
            r.protocols() == Map::<Seq<u8>, u64>::empty(),
            !r.is_serving(),
    {
        RpcServer { registry, config, alpn_handlers: protocols_new(), serving: false }
    }

    /// The registered methods.
    pub fn registry(&self) -> (r: &Arc<MethodRegistry<U, S>>)
        ensures
            r@ == self.methods(),
    {
        &self.registry
    }

    /// The limits.
    pub fn config(&self) -> (r: &RpcServerConfig)
        ensures
            *r == self.limits(),
    {
        &self.config
    }

    /// How many protocols have a handler.
    pub fn registered_alpn_count(&self) -> (r: usize)
        ensures
            r == self.protocols().len(),
            self.protocols().dom().finite(),
    {
        proof {
            use_type_invariant(self);
        }
        protocols_len(&self.alpn_handlers)
    }

    /// Gives a protocol a handler; the one it had is replaced.
    pub fn register_alpn_handler(&mut self, alpn: &[u8], handler: u64)
        ensures
            final(self).protocols() == old(self).protocols().insert(alpn@, handler),
            final(self).methods() == old(self).methods(),
            final(self).limits() == old(self).limits(),
            final(self).is_serving() == old(self).is_serving(),
            final(self).protocols().len() == grown_count(old(self).protocols(), alpn@),
    {
        self.install(alpn, handler);
    }

    /// Puts the handler of a protocol into the table.
    fn install(&mut self, alpn: &[u8], handler: u64)
        ensures
            final(self).protocols() == old(self).protocols().insert(alpn@, handler),
            final(self).methods() == old(self).methods(),
            final(self).limits() == old(self).limits(),
            final(self).is_serving() == old(self).is_serving(),
            final(self).protocols().len() == grown_count(old(self).protocols(), alpn@),
    {
        proof {
            use_type_invariant(&*self);
        }
        let mut handlers = protocols_new();
        std::mem::swap(&mut handlers, &mut self.alpn_handlers);
        protocols_insert(&mut handlers, alpn, handler);
        self.alpn_handlers = handlers;
    }

    /// Starts serving: installs the handler of the built-in protocol. Refused, and nothing
    /// changed, if the server serves already.
    pub fn serve(&mut self, wire_handler: u64) -> (r: RpcResult<()>)
        ensures
            final(self).is_serving(),
            final(self).methods() == old(self).methods(),
            final(self).limits() == old(self).limits(),
            match r {
                Ok(()) => {
                    &&& !old(self).is_serving()
                    &&& final(self).protocols() == old(self).protocols().insert(
                        ALPN_NERW_RPC_1_0_0@,
                        wire_handler,
                    )
                    &&& final(self).protocols().len() == grown_count(
                        old(self).protocols(),
                        ALPN_NERW_RPC_1_0_0@,
                    )
                },
                Err(e) => {
                    &&& old(self).is_serving()
                    &&& e@ == RpcErrorView::AlreadyServing
                    &&& final(self).protocols() == old(self).protocols()
                },
            },
    {
        if self.serving {
            return Err(RpcError::AlreadyServing);
        }
        self.install(ALPN_NERW_RPC_1_0_0, wire_handler);
        proof {
            use_type_invariant(&*self);
        }
        self.serving = true;
        Ok(())
    }

    /// What becomes of a connection that negotiated `alpn`.
    pub fn route_connection(&self, alpn: &[u8]) -> (r: ConnectionRoute)
        ensures
            r == connection_route(self.protocols(), alpn@),
    {
        match protocols_get(&self.alpn_handlers, alpn) {
            Some(handler) => ConnectionRoute::Handler(handler),
            None => ConnectionRoute::Close(CLOSE_NO_HANDLER),
        }
    }
}

/// Handler of the built-in protocol: numbers the connections it is given.
pub struct WireDispatchHandler {
    next_connection_id: u64,
}

impl WireDispatchHandler {
    /// The number that the next connection gets.
    pub closed spec fn next(&self) -> u64 {
        self.next_connection_id
    }

    /// A handler that numbers from 1 on.
    pub fn new() -> (r: Self)
        ensures
            r.next() == 1,
    {
        WireDispatchHandler { next_connection_id: 1 }
    }

    /// Gives a connection its number. After the largest number comes 0.
    pub fn number_connection(&mut self) -> (r: u64)
        ensures
            r == old(self).next(),
            final(self).next() == (if r == u64::MAX {
                0
            } else {
                r + 1
            }),
    {
        let id: u64 = self.next_connection_id;
        self.next_connection_id = id.wrapping_add(1);
        id
    }
}

/// The bytes of a success response.
pub open spec fn response_frame(response: Seq<u8>) -> Seq<u8> {
    seq![OPCODE_UNARY_RESPONSE] + response
}

/// The bytes of an error response.
pub open spec fn error_frame(e: RpcErrorView) -> Seq<u8> {
    seq![OPCODE_UNARY_ERROR] + wire_error_bytes(wire_of(e))
}

/// The bytes of a unary request.
pub open spec fn request_frame(name: Seq<char>, request: Seq<u8>) -> Seq<u8> {
    seq![OPCODE_UNARY_REQUEST] + text_field(name) + request
}

/// Frames a success response.
pub fn write_response(response: &[u8]) -> (r: Vec<u8>)
    ensures
        r@ == response_frame(response@),
{
    let mut buf: Vec<u8> = Vec::new();
    buf.push(OPCODE_UNARY_RESPONSE);
    buf.extend_from_slice(response);
    assert(buf@ =~= response_frame(response@));
    buf
}

/// Frames an error response.
pub fn write_error(err: &RpcError) -> (r: Vec<u8>)
    ensures
        r@ == error_frame(err@),
        wire_error_fits(wire_of(err@)),
{
    let mut body = WireError::from_rpc_error(err).to_bytes();
    let mut buf: Vec<u8> = Vec::new();
    buf.push(OPCODE_UNARY_ERROR);
    buf.append(&mut body);
    assert(buf@ =~= error_frame(err@));
    buf
}

/// Frames a unary request.
pub fn build_unary_request_frame(method_name: &str, request: &[u8]) -> (r: RpcResult<Vec<u8>>)
    ensures
        r matches Ok(b) && b@ == request_frame(method_name@, request@),
{
    let mut buf: Vec<u8> = Vec::new();
    buf.push(OPCODE_UNARY_REQUEST);
    let named = encode_method_name(method_name, &mut buf);
    buf.extend_from_slice(request);
    assert(buf@ =~= request_frame(method_name@, request@));
    match named {
        Ok(()) => Ok(buf),
        Err(e) => Err(e),
    }
}

/// What the first byte of a substream says.
pub enum Opening {
    /// A unary request follows.
    Unary,
    /// A streaming call is opened.
    Streaming,
    /// Neither; the bytes are sent back as the answer.
    Refused(Vec<u8>),
}

/// The error for a first byte that opens nothing.
pub open spec fn opening_error(opcode: u8) -> RpcErrorView {
    RpcErrorView::MalformedFrame(
        "expected unary-request (0x00) or streaming-open (0x10), got 0x"@ + hex2(opcode),
    )
}

/// Says what the first byte of a substream means.
pub fn handle_inbound_substream(opcode: u8) -> (r: Opening)
    ensures
        match r {
            Opening::Unary => opcode == OPCODE_UNARY_REQUEST,
            Opening::Streaming => opcode == OPCODE_STREAMING_OPEN_REQUEST,
            Opening::Refused(b) => {
                &&& opcode != OPCODE_UNARY_REQUEST
                &&& opcode != OPCODE_STREAMING_OPEN_REQUEST
                &&& b@ == error_frame(opening_error(opcode))
            },
        },
{
    if opcode == OPCODE_STREAMING_OPEN_REQUEST {
        Opening::Streaming
    } else if opcode == OPCODE_UNARY_REQUEST {
        Opening::Unary
    } else {
        let err = RpcError::MalformedFrame(
            join2(
                "expected unary-request (0x00) or streaming-open (0x10), got 0x",
                hex2_text(opcode).as_str(),
            ),
        );
        Opening::Refused(write_error(&err))
    }
}

/// Which handler a request frame goes to, and with which bytes, or the error.
pub open spec fn unary_target<U, S>(
    m: Map<Seq<char>, HandlerEntry<U, S>>,
    b: Seq<u8>,
) -> Result<(U, Seq<u8>), RpcErrorView> {
    if b.len() == 0 {
        Err(RpcErrorView::MalformedFrame("empty request frame"@))
    } else if b[0] != OPCODE_UNARY_REQUEST {
        Err(
            RpcErrorView::MalformedFrame(
                "expected unary-request opcode 0x00, got 0x"@ + hex2(b[0]),
            ),
        )
    } else {
        match parse_method_name(b.skip(1)) {
            Err(e) => Err(e),
            Ok((name, payload)) => match resolve_unary(m, name) {
                Some(handler) => Ok((handler, payload)),
                None => Err(RpcErrorView::UnknownMethod(name)),
            },
        }
    }
}

/// Finds the handler that a request frame goes to, and the bytes for it.
pub fn dispatch_unary<'a, 'b, U, S>(buf: &'b [u8], registry: &'a MethodRegistry<U, S>) -> (r:
    RpcResult<(&'a U, &'b [u8])>)
    ensures
        match r {
            Ok((handler, payload)) => unary_target(registry@, buf@) == Ok::<
                (U, Seq<u8>),
                RpcErrorView,
            >((*handler, payload@)),
            Err(e) => unary_target(registry@, buf@) == Err::<(U, Seq<u8>), RpcErrorView>(e@),
        },
{
    if buf.len() == 0 {
        return Err(RpcError::MalformedFrame("empty request frame".to_owned()));
    }
    let opcode: u8 = buf[0];
    if opcode != OPCODE_UNARY_REQUEST {
        return Err(
            RpcError::MalformedFrame(
                join2(
                    "expected unary-request opcode 0x00, got 0x",
                    hex2_text(opcode).as_str(),
                ),
            ),
        );
    }
    let tail = vstd::slice::slice_subrange(buf, 1, buf.len());
    assert(tail@ =~= buf@.skip(1));
    match decode_method_name(tail) {
        Err(e) => Err(e),
        Ok((name, payload)) => match registry.lookup(name) {
            Some(handler) => Ok((handler, payload)),
            None => Err(RpcError::UnknownMethod(name.to_owned())),
        },
    }
}

/// What to do with a unary request.
pub enum UnaryStep<'a, U> {
    /// Call the handler with the bytes, and answer with [`answer_unary`].
    Invoke {
        /// The handler.
        handler: &'a U,
        /// Bytes for the handler.
        payload: Vec<u8>,
    },
    /// Send the bytes; the request is done.
    Reply(Vec<u8>),
}

/// Decides on a unary request whose opcode was read already; `tail` is what followed it.
pub fn handle_unary_stream_with_opcode_consumed<'a, U, S>(
    tail: &[u8],
    registry: &'a MethodRegistry<U, S>,
) -> (r: UnaryStep<'a, U>)
    ensures
        match r {
            UnaryStep::Invoke { handler, payload } => unary_target(
                registry@,
                seq![OPCODE_UNARY_REQUEST] + tail@,
            ) == Ok::<(U, Seq<u8>), RpcErrorView>((*handler, payload@)),
            UnaryStep::Reply(b) => unary_target(
                registry@,
                seq![OPCODE_UNARY_REQUEST] + tail@,
            ) matches Err(e) && b@ == error_frame(e),
        },
{
    let mut buf: Vec<u8> = Vec::new();
    buf.push(OPCODE_UNARY_REQUEST);
    buf.extend_from_slice(tail);
    assert(buf@ =~= seq![OPCODE_UNARY_REQUEST] + tail@);
    match dispatch_unary(buf.as_slice(), registry) {
        Ok((handler, payload)) => UnaryStep::Invoke {
            handler,
            payload: vstd::slice::slice_to_vec(payload),
        },
        Err(e) => UnaryStep::Reply(write_error(&e)),
    }
}

/// Frames what a unary handler returned.
pub fn answer_unary(result: RpcResult<Vec<u8>>) -> (r: Vec<u8>)
    ensures
        r@ == (match result {
            Ok(response) => response_frame(response@),
            Err(e) => error_frame(e@),
        }),
{
    match result {
        Ok(response) => write_response(response.as_slice()),
        Err(e) => write_error(&e),
    }
}

/// A number of 128 bits cut to the largest one of 64.
pub open spec fn saturated(v: u128) -> u64 {
    if v <= u64::MAX {
        v as u64
    } else {
        u64::MAX
    }
}

/// Cuts a number of 128 bits to the largest one of 64.
pub fn saturate(v: u128) -> (r: u64)
    ensures
        r == saturated(v),
{
    if v <= u64::MAX as u128 {
        v as u64
    } else {
        u64::MAX
    }
}

/// Milliseconds since 1970 as a signed number; 0 where they are unknown or do not fit.
pub open spec fn wall_clock(unix_ms: Option<u128>) -> i64 {
    match unix_ms {
        Some(ms) => if ms <= i64::MAX {
            ms as i64
        } else {
            0
        },
        None => 0,
    }
}

/// The context of a call that came over a connection.
///
/// `unix_ms` is the wall clock, if it can be told; `since_accept_ns` is how long ago the
/// substream was accepted.
pub fn build_inbound_context(
    remote: NodeId,
    unix_ms: Option<u128>,
    since_accept_ns: u128,
    connection_id: u64,
    stream_id: u64,
    frame_decode_duration_us: u64,
) -> (r: RpcContext)
    ensures
        r.peer.node_id == remote,
        r.peer.connection_id == connection_id,
        r.peer.stream_id == stream_id,
        r.peer.alpn@ == ALPN_NERW_RPC_1_0_0@,
        r.peer.handshake_at_ms == wall_clock(unix_ms),
        r.peer.tls_cipher_suite is None,
        r.timing.received_at_ms == wall_clock(unix_ms),
        r.timing.received_at_monotonic_ns == saturated(since_accept_ns),
        r.timing.frame_decode_duration_us == frame_decode_duration_us,
        r.auth is None,
        r.session is None,
        is_fresh(r.tracing),
{
    let now_ms: i64 = match unix_ms {
        Some(ms) => if ms <= i64::MAX as u128 {
            ms as i64
        } else {
            0
        },
        None => 0,
    };
    RpcContext {
        peer: PeerMetadata {
            node_id: remote,
            connection_id,
            stream_id,
            alpn: vstd::slice::slice_to_vec(ALPN_NERW_RPC_1_0_0),
            handshake_at_ms: now_ms,
            tls_cipher_suite: None,
        },
        timing: TimingInfo {
            received_at_ms: now_ms,
            received_at_monotonic_ns: saturate(since_accept_ns),
            frame_decode_duration_us,
        },
        auth: None,
        session: None,
        tracing: TracingInfo::fresh(),
    }
}

/// What to do with the opening of a streaming call.
pub enum OpenStep<'a, S> {
    /// Send the bytes, then run the handler.
    Accept {
        /// The handler.
        handler: &'a S,
        /// The acknowledgement.
        reply: Vec<u8>,
    },
    /// Send the bytes and finish the stream.
    Refuse {
        /// The refusal.
        reply: Vec<u8>,
    },
}

/// The acknowledgement of an opening.
pub open spec fn open_ack(open: OpenRequestView) -> OpenResponseView {
    OpenResponseView { refusal: None, request_id: open.request_id }
}

/// The refusal of an opening.
pub open spec fn open_refusal(open: OpenRequestView) -> OpenResponseView {
    OpenResponseView {
        refusal: Some("unknown streaming method: "@ + open.method_name),
        request_id: open.request_id,
    }
}

/// What is wrong with a frame that opens a streaming call without being an open request.
pub open spec fn not_an_opening(f: FrameView) -> RpcErrorView {
    RpcErrorView::MalformedFrame("expected open-request body, got "@ + frame_debug(f))
}

/// The frame that tells the peer why its opening failed: a terminal error.
pub open spec fn open_failure(e: RpcErrorView) -> Seq<u8> {
    frame_bytes(FrameView::Error(StreamingErrorView { message: error_text(e), terminal: true }))
}

/// Renders the frame that tells the peer why its opening failed.
fn open_failure_frame(e: &RpcError) -> (r: Vec<u8>)
    ensures
        r@ == open_failure(e@),
{
    let mut reply: Vec<u8> = Vec::new();
    let body = handler_err_to_terminal(e);
    write_streaming_error(&mut reply, &body);
    assert(reply@ =~= frame_bytes(FrameView::Error(body@)));
    reply
}

/// Decides on the opening of a streaming call, given what reading it gave. Whatever step
/// fails, the peer is told: by a refusal where the method is unknown, by a terminal error
/// where the opening could not be read or is another frame.
pub fn streaming_negotiate_open<'a, U, S>(
    open: RpcResult<StreamingFrame>,
    registry: &'a MethodRegistry<U, S>,
) -> (r: OpenStep<'a, S>)
    ensures
        match open {
            Ok(StreamingFrame::OpenRequest(body)) => match resolve_streaming(
                registry@,
                body@.method_name,
            ) {
                Some(h) => r matches OpenStep::Accept { handler, reply } && {
                    &&& *handler == h
                    &&& reply@ == frame_bytes(FrameView::OpenResponse(open_ack(body@)))
                },
                None => r matches OpenStep::Refuse { reply } && reply@ == frame_bytes(
                    FrameView::OpenResponse(open_refusal(body@)),
                ),
            },
            Ok(other) => r matches OpenStep::Refuse { reply } && reply@ == open_failure(
                not_an_opening(other@),
            ),
            Err(e) => r matches OpenStep::Refuse { reply } && reply@ == open_failure(e@),
        },
{
    match open {
        Ok(StreamingFrame::OpenRequest(body)) => {
            let mut reply: Vec<u8> = Vec::new();
            match registry.lookup_streaming(body.method_name.as_str()) {
                Some(handler) => {
                    let ack = StreamingOpenResponse {
                        status: StreamingOpenStatus::Accepted,
                        request_id: body.request_id,
                    };
                    write_open_response(&mut reply, &ack);
                    assert(ack@ == open_ack(body@));
                    assert(reply@ =~= frame_bytes(FrameView::OpenResponse(ack@)));
                    OpenStep::Accept { handler, reply }
                },
                None => {
                    let ack = StreamingOpenResponse {
                        status: StreamingOpenStatus::Refused(
                            join2("unknown streaming method: ", body.method_name.as_str()),
                        ),
                        request_id: body.request_id,
                    };
                    write_open_response(&mut reply, &ack);
                    assert(ack@ == open_refusal(body@));
                    assert(reply@ =~= frame_bytes(FrameView::OpenResponse(ack@)));
                    OpenStep::Refuse { reply }
                },
            }
        },
        Ok(other) => {
            let e = RpcError::MalformedFrame(
                join2("expected open-request body, got ", frame_debug_text(&other).as_str()),
            );
            OpenStep::Refuse { reply: open_failure_frame(&e) }
        },
        Err(e) => OpenStep::Refuse { reply: open_failure_frame(&e) },
    }
}

/// How a frame reads in an error message.
pub open spec fn frame_debug(f: FrameView) -> Seq<char> {
    match f {
        FrameView::OpenRequest(v) => "OpenRequest(StreamingOpenRequest { method_name: "@
            + debug_text(v.method_name) + ", request_id: "@ + decimal(v.request_id as nat)
            + " })"@,
        FrameView::OpenResponse(v) => "OpenResponse(StreamingOpenResponse { status: "@ + (
        match v.refusal {
            None => "Ok"@,
            Some(s) => "Err("@ + debug_text(s) + ")"@,
        }) + ", request_id: "@ + decimal(v.request_id as nat) + " })"@,
        FrameView::RequestChunk(b) => "RequestChunk("@ + bytes_literal(b) + ")"@,
        FrameView::ResponseChunk(b) => "ResponseChunk("@ + bytes_literal(b) + ")"@,
        FrameView::RequestEnd => "RequestEnd"@,
        FrameView::ResponseEnd => "ResponseEnd"@,
        FrameView::Error(v) => "Error(StreamingError { message: "@ + debug_text(v.message)
            + ", terminal: "@ + (if v.terminal {
            "true"@
        } else {
            "false"@
        }) + " })"@,
    }
}

/// Bytes as a byte-string literal.
pub open spec fn bytes_literal(b: Seq<u8>) -> Seq<char> {
    seq!['b', '"'] + escaped_bytes(b) + seq!['"']
}

/// Renders a frame for an error message.
fn frame_debug_text(f: &StreamingFrame) -> (r: String)
    ensures
        r@ == frame_debug(f@),
{
    match f {
        StreamingFrame::OpenRequest(v) => {
            let name = debug_quoted(v.method_name.as_str());
            let mut out = join3(
                "OpenRequest(StreamingOpenRequest { method_name: ",
                name.as_str(),
                ", request_id: ",
            );
            out.append(decimal_text(v.request_id).as_str());
            out.append(" })");
            out
        },
        StreamingFrame::OpenResponse(v) => {
            let status = match &v.status {
                StreamingOpenStatus::Accepted => "Ok".to_owned(),
                StreamingOpenStatus::Refused(s) => join3(
                    "Err(",
                    debug_quoted(s.as_str()).as_str(),
                    ")",
                ),
            };
            let mut out = join3(
                "OpenResponse(StreamingOpenResponse { status: ",
                status.as_str(),
                ", request_id: ",
            );
            out.append(decimal_text(v.request_id).as_str());
            out.append(" })");
            out
        },
        StreamingFrame::RequestChunk(b) => join3(
            "RequestChunk(",
            debug_bytes(b.as_slice()).as_str(),
            ")",
        ),
        StreamingFrame::ResponseChunk(b) => join3(
            "ResponseChunk(",
            debug_bytes(b.as_slice()).as_str(),
            ")",
        ),
        StreamingFrame::RequestEnd => "RequestEnd".to_owned(),
        StreamingFrame::ResponseEnd => "ResponseEnd".to_owned(),
        StreamingFrame::Error(v) => {
            let message = debug_quoted(v.message.as_str());
            let mut out = join3(
                "Error(StreamingError { message: ",
                message.as_str(),
                ", terminal: ",
            );
            if v.terminal {
                out.append("true");
            } else {
                out.append("false");
            }
            out.append(" })");
            out
        },
    }
}

/// What to do with a frame that came from the client of a streaming call.
pub struct PumpStep {
    /// What the handler is handed, if anything.
    pub forward: Option<RpcResult<Vec<u8>>>,
    /// Whether reading stops.
    pub done: bool,
}

/// What the handler is handed, with its contents taken by their views.
pub open spec fn forwarded(f: Option<RpcResult<Vec<u8>>>) -> Option<
    Result<Seq<u8>, RpcErrorView>,
> {
    match f {
        None => None,
        Some(Ok(b)) => Some(Ok(b@)),
        Some(Err(e)) => Some(Err(e@)),
    }
}

/// What a frame of the client means to the handler: what it is handed, and whether reading
/// stops.
pub open spec fn pump(f: FrameView) -> (Option<Result<Seq<u8>, RpcErrorView>>, bool) {
    match f {
        FrameView::RequestChunk(b) => (Some(Ok(b)), false),
        FrameView::RequestEnd => (None, true),
        FrameView::Error(v) => (Some(Err(RpcErrorView::Handler(v.message))), v.terminal),
        _ => (
            Some(
                Err(
                    RpcErrorView::MalformedFrame(
                        "unexpected client\u{2192}server frame: "@ + frame_debug(f),
                    ),
                ),
            ),
            true,
        ),
    }
}

/// Decides what the handler is handed of what reading from the client gave. The end of the
/// stream (`Ok(None)`) counts as the client's end frame.
pub fn pump_inbound_requests(read: RpcResult<Option<StreamingFrame>>) -> (r: PumpStep)
    ensures
        match read {
            Ok(Some(f)) => (forwarded(r.forward), r.done) == pump(f@),
            Ok(None) => r.forward is None && r.done,
            Err(e) => forwarded(r.forward) == Some(Err::<Seq<u8>, RpcErrorView>(e@)) && r.done,
        },
{
    match read {
        Ok(Some(StreamingFrame::RequestChunk(b))) => PumpStep {
            forward: Some(Ok(b)),
            done: false,
        },
        Ok(Some(StreamingFrame::RequestEnd)) => PumpStep { forward: None, done: true },
        Ok(None) => PumpStep { forward: None, done: true },
        Ok(Some(StreamingFrame::Error(v))) => PumpStep {
            forward: Some(Err(RpcError::Handler(v.message))),
            done: v.terminal,
        },
        Ok(Some(other)) => PumpStep {
            forward: Some(
                Err(
                    RpcError::MalformedFrame(
                        join2(
                            "unexpected client\u{2192}server frame: ",
                            frame_debug_text(&other).as_str(),
                        ),
                    ),
                ),
            ),
            done: true,
        },
        Err(e) => PumpStep { forward: Some(Err(e)), done: true },
    }
}

/// How the handler of a streaming call came to its end.
pub enum HandlerExit {
    /// It returned without an error.
    Finished,
    /// It returned an error.
    Failed(RpcError),
    /// It was lost, with the given message.
    Lost(String),
}

/// The frame for one item of the handler: a chunk, or an error that ends the stream.
pub open spec fn item_frame(item: RpcResult<Vec<u8>>) -> FrameView {
    match item {
        Ok(chunk) => FrameView::ResponseChunk(chunk@),
        Err(e) => FrameView::Error(
            StreamingErrorView { message: error_text(e@), terminal: true },
        ),
    }
}

/// The frame that ends a streaming call.
pub open spec fn exit_frame(exit: HandlerExit) -> FrameView {
    match exit {
        HandlerExit::Finished => FrameView::ResponseEnd,
        HandlerExit::Failed(e) => FrameView::Error(
            StreamingErrorView { message: error_text(e@), terminal: true },
        ),
        HandlerExit::Lost(s) => FrameView::Error(
            StreamingErrorView {
                message: "streaming handler join failure: "@ + s@,
                terminal: true,
            },
        ),
    }
}

/// Frames one item of the handler, and says whether it ends the stream.
pub fn drain_handler_responses(item: RpcResult<Vec<u8>>) -> (r: (Vec<u8>, bool))
    ensures
        r.0@ == frame_bytes(item_frame(item)),
        r.1 == (item is Err),
{
    let mut buf: Vec<u8> = Vec::new();
    match item {
        Ok(chunk) => {
            write_response_chunk(&mut buf, chunk.as_slice());
            assert(buf@ =~= frame_bytes(item_frame(item)));
            (buf, false)
        },
        Err(e) => {
            let body = handler_err_to_terminal(&e);
            write_streaming_error(&mut buf, &body);
            assert(buf@ =~= frame_bytes(item_frame(item)));
            (buf, true)
        },
    }
}

/// Frames the end of a streaming call.
pub fn finalise_streaming(exit: HandlerExit) -> (r: Vec<u8>)
    ensures
        r@ == frame_bytes(exit_frame(exit)),
{
    let mut buf: Vec<u8> = Vec::new();
    match &exit {
        HandlerExit::Finished => write_response_end(&mut buf),
        HandlerExit::Failed(e) => {
            let body = handler_err_to_terminal(e);
            write_streaming_error(&mut buf, &body);
        },
        HandlerExit::Lost(s) => {
            let body = StreamingError {
                message: join2("streaming handler join failure: ", s.as_str()),
                terminal: true,
            };
            write_streaming_error(&mut buf, &body);
        },
    }
    assert(buf@ =~= frame_bytes(exit_frame(exit)));
    buf
}

/// Whether a frame is the last one of the server: its end frame, or an error that ends the
/// stream.
pub open spec fn closes(f: FrameView) -> bool {
    ||| f is ResponseEnd
    ||| f matches FrameView::Error(v) && v.terminal
}

/// Whether a server sent a sound sequence of frames: chunks, and nothing behind a frame
/// that closes.
pub open spec fn sound_responses(sent: Seq<FrameView>) -> bool {
    forall|i: int|
        0 <= i < sent.len() ==> (#[trigger] sent[i] is ResponseChunk || (i == sent.len() - 1
            && closes(sent[i])))
}

/// The server's half of a streaming call: turns items and the end of the handler into
/// frames, until one of them closes the stream or a write fails.
pub struct ResponseSide {
    open: bool,
    sent: Ghost<Seq<FrameView>>,
}

impl ResponseSide {
    /// The frames handed out for sending.
    pub closed spec fn sent(&self) -> Seq<FrameView> {
        self.sent@
    }

    /// Whether more may be sent.
    pub closed spec fn is_open(&self) -> bool {
        self.open
    }

    #[verifier::type_invariant]
    spec fn inv(self) -> bool {
        &&& sound_responses(self.sent@)
        &&& self.open ==> forall|i: int|
            0 <= i < self.sent@.len() ==> #[trigger] self.sent@[i] is ResponseChunk
    }

    /// A half on which nothing was sent.
    pub fn new() -> (r: Self)
        ensures
            r.is_open(),
            r.sent() == Seq::<FrameView>::empty(),
    {
        ResponseSide { open: true, sent: Ghost(Seq::empty()) }
    }

    /// Whether more may be sent.
    pub fn may_send(&self) -> (r: bool)
        ensures
            r == self.is_open(),
    {
        self.open
    }

    /// Takes one item of the handler; hands out its frame if the half is open.
    pub fn item(self, item: RpcResult<Vec<u8>>) -> (r: (Self, Option<Vec<u8>>))
        ensures
            sound_responses(r.0.sent()),
            self.is_open() ==> {
                &&& r.1 matches Some(b) && b@ == frame_bytes(item_frame(item))
                &&& r.0.sent() == self.sent().push(item_frame(item))
                &&& r.0.is_open() == (item is Ok)
            },
            !self.is_open() ==> {
                &&& r.1 is None
                &&& r.0.sent() == self.sent()
                &&& !r.0.is_open()
            },
    {
        proof {
            use_type_invariant(&self);
        }
        if !self.open {
            return (self, None);
        }
        let ghost sent = self.sent@.push(item_frame(item));
        let (frame, last) = drain_handler_responses(item);
        let next = ResponseSide { open: !last, sent: Ghost(sent) };
        (next, Some(frame))
    }

    /// Takes the end of the handler; hands out the closing frame if the half is open.
    pub fn exit(self, exit: HandlerExit) -> (r: (Self, Option<Vec<u8>>))
        ensures
            sound_responses(r.0.sent()),
            !r.0.is_open(),
            self.is_open() ==> {
                &&& r.1 matches Some(b) && b@ == frame_bytes(exit_frame(exit))
                &&& r.0.sent() == self.sent().push(exit_frame(exit))
            },
            !self.is_open() ==> {
                &&& r.1 is None
                &&& r.0.sent() == self.sent()
            },
    {
        proof {
            use_type_invariant(&self);
        }
        if !self.open {
            return (self, None);
        }
        let ghost sent = self.sent@.push(exit_frame(exit));
        let frame = finalise_streaming(exit);
        let next = ResponseSide { open: false, sent: Ghost(sent) };
        (next, Some(frame))
    }

    /// Takes note that a write failed: nothing more is sent.
    pub fn write_failed(self) -> (r: Self)
        ensures
            sound_responses(r.sent()),
            r.sent() == self.sent(),
            !r.is_open(),
    {
        proof {
            use_type_invariant(&self);
        }
        ResponseSide { open: false, sent: self.sent }
    }
}

/// A request frame that [`build_unary_request_frame`] wrote goes to the handler that its
/// method resolves to, with the request bytes untouched; without such a handler the error
/// names the method.
pub proof fn request_reaches_its_handler<U, S>(
    m: Map<Seq<char>, HandlerEntry<U, S>>,
    name: Seq<char>,
    request: Seq<u8>,
)
    requires
        encode_utf8(name).len() <= MAX_METHOD_NAME_LEN,
    ensures
        unary_target(m, request_frame(name, request)) == (match resolve_unary(m, name) {
            Some(handler) => Ok::<(U, Seq<u8>), RpcErrorView>((handler, request)),
            None => Err(RpcErrorView::UnknownMethod(name)),
        }),
{
    let b = request_frame(name, request);
    assert(b.skip(1) =~= text_field(name) + request);
    method_name_roundtrip(name, request);
}

/// A connection on a protocol goes to the handler that was registered for it last, and
/// registering for one protocol leaves the others alone.
pub proof fn registered_protocol_is_routed(
    handlers: Map<Seq<u8>, u64>,
    alpn: Seq<u8>,
    handler: u64,
    other: Seq<u8>,
)
    ensures
        connection_route(handlers.insert(alpn, handler), alpn) == ConnectionRoute::Handler(handler),
        other != alpn ==> connection_route(handlers.insert(alpn, handler), other)
            == connection_route(handlers, other),
{
}

} // verus!
