//! The calling side: the steps of a unary call, and what a response means.
use vstd::prelude::*;

use crate::error::{RpcError, RpcErrorView, RpcResult};
use crate::server::{build_unary_request_frame, error_frame, request_frame, response_frame};
use crate::text::{hex2, hex2_text, join2};
use crate::wire::{OPCODE_UNARY_ERROR, OPCODE_UNARY_RESPONSE};
use crate::wire_error::{
    error_survives_wire, rpc_of, take_wire_error, wire_error_bytes, wire_error_fits,
    wire_error_roundtrip, wire_of, WireError,
};

verus! {

/// Upper bound on what is read as a response, in bytes.
pub const RPC_RESPONSE_READ_LIMIT: usize = 8 * 1024 * 1024;

/// Whether an error says that an established stream broke, so that the connection is not
/// to be used again.
pub open spec fn is_broken_stream(e: RpcErrorView) -> bool {
    e is TransportRead || e is TransportWrite
}

/// Whether an error says that an established stream broke, so that the connection is not
/// to be used again. A substream that could not be opened is not such an error.
pub fn is_transport_io_error(err: &RpcError) -> (r: bool)
    ensures
        r == is_broken_stream(err@),
{
    match err {
        RpcError::TransportRead { .. } => true,
        RpcError::TransportWrite { .. } => true,
        _ => false,
    }
}

/// What a response frame means: the response bytes, or the error of the server.
pub open spec fn response_of(b: Seq<u8>) -> Result<Seq<u8>, RpcErrorView> {
    if b.len() == 0 {
        Err(RpcErrorView::MalformedFrame("empty response frame"@))
    } else if b[0] == OPCODE_UNARY_RESPONSE {
        Ok(b.skip(1))
    } else if b[0] == OPCODE_UNARY_ERROR {
        match take_wire_error(b.skip(1)) {
            Ok((w, _)) => Err(rpc_of(w)),
            Err(e) => Err(RpcErrorView::Codec(e)),
        }
    } else {
        Err(RpcErrorView::MalformedFrame("unexpected response opcode 0x"@ + hex2(b[0])))
    }
}

/// The bytes that an operation gave, or its error, by their views.
pub open spec fn bytes_outcome(r: RpcResult<Vec<u8>>) -> Result<Seq<u8>, RpcErrorView> {
    match r {
        Ok(b) => Ok(b@),
        Err(e) => Err(e@),
    }
}

/// Decodes a response frame.
pub fn decode_response_frame(buf: &[u8]) -> (r: RpcResult<Vec<u8>>)
    ensures
        bytes_outcome(r) == response_of(buf@),
{
    if buf.len() == 0 {
        return Err(RpcError::MalformedFrame("empty response frame".to_owned()));
    }
    let opcode: u8 = buf[0];
    let rest = vstd::slice::slice_subrange(buf, 1, buf.len());
    assert(rest@ =~= buf@.skip(1));
    if opcode == OPCODE_UNARY_RESPONSE {
        Ok(vstd::slice::slice_to_vec(rest))
    } else if opcode == OPCODE_UNARY_ERROR {
        match WireError::from_bytes(rest) {
            Ok(wire) => Err(wire.into_rpc_error()),
            Err(e) => Err(RpcError::Codec(e)),
        }
    } else {
        Err(
            RpcError::MalformedFrame(
                join2("unexpected response opcode 0x", hex2_text(opcode).as_str()),
            ),
        )
    }
}

/// Where a unary call stands.
#[derive(Clone, Copy, Debug, PartialEq, Eq, Structural)]
pub enum CallStage {
    /// The substream is being opened.
    Opening,
    /// The request is being written.
    Writing,
    /// The sending half is being finished.
    Finishing,
    /// The response is being read.
    Reading,
}

/// What came of a step.
pub enum CallEvent {
    /// It worked.
    Done,
    /// The response was read.
    Received(Vec<u8>),
    /// It failed, with the given message.
    Failed(String),
}

/// What to do next.
pub enum CallStep {
    /// Go on with the stage that the call is in now.
    Next(UnaryCall),
    /// The call is over.
    Over {
        /// What the call returns.
        result: RpcResult<Vec<u8>>,
        /// Whether the connection is to be dropped from the cache of connections.
        evict: bool,
    },
}

/// A unary call: opens a substream, writes the request, finishes, reads the response.
pub struct UnaryCall {
    peer: String,
    frame: Vec<u8>,
    stage: CallStage,
}

/// The error of a failed step.
pub open spec fn step_error(stage: CallStage, peer: Seq<char>, reason: Seq<char>) -> RpcErrorView {
    match stage {
        CallStage::Opening => RpcErrorView::TransportOpenSubstream { node_id: peer, reason },
        CallStage::Writing => RpcErrorView::TransportWrite { reason: "write_all: "@ + reason },
        CallStage::Finishing => RpcErrorView::TransportWrite { reason: "finish: "@ + reason },
        CallStage::Reading => RpcErrorView::TransportRead { reason: "read_to_end: "@ + reason },
    }
}

/// The stage behind one that worked.
pub open spec fn stage_after(stage: CallStage) -> CallStage {
    match stage {
        CallStage::Opening => CallStage::Writing,
        CallStage::Writing => CallStage::Finishing,
        CallStage::Finishing => CallStage::Reading,
        CallStage::Reading => CallStage::Reading,
    }
}

/// Whether the connection is dropped from the cache after a call with this result.
pub open spec fn evicts(r: Result<Seq<u8>, RpcErrorView>) -> bool {
    r matches Err(e) && is_broken_stream(e)
}

impl UnaryCall {
    /// The peer that is called, as shown in errors.
    pub closed spec fn callee(&self) -> Seq<char> {
        self.peer@
    }

    /// The bytes of the request.
    pub closed spec fn request(&self) -> Seq<u8> {
        self.frame@
    }

    /// Where the call stands.
    pub closed spec fn at(&self) -> CallStage {
        self.stage
    }

    /// A call of a method, with its substream to be opened.
    pub fn start(peer: &str, method_name: &str, request: &[u8]) -> (r: RpcResult<Self>)
        ensures
            r matches Ok(c) && {
                &&& c.callee() == peer@
                &&& c.request() == request_frame(method_name@, request@)
                &&& c.at() == CallStage::Opening
            },
    {
        match build_unary_request_frame(method_name, request) {
            Ok(frame) => Ok(
                UnaryCall { peer: peer.to_owned(), frame, stage: CallStage::Opening },
            ),
            Err(e) => Err(e),
        }
    }

    /// Where the call stands.
    pub fn stage(&self) -> (r: CallStage)
        ensures
            r == self.at(),
    {
        self.stage
    }

    /// The bytes to write at [`CallStage::Writing`].
    pub fn frame(&self) -> (r: &[u8])
        ensures
            r@ == self.request(),
    {
        self.frame.as_slice()
    }

    /// Takes note of what came of the current stage.
    pub fn step(self, event: CallEvent) -> (r: CallStep)
        requires
            event is Done ==> self.at() != CallStage::Reading,
            event is Received ==> self.at() == CallStage::Reading,
        ensures
            match event {
                CallEvent::Done => r matches CallStep::Next(next) && {
                    &&& next.callee() == self.callee()
                    &&& next.request() == self.request()
                    &&& next.at() == stage_after(self.at())
                },
                CallEvent::Received(b) => r matches CallStep::Over { result, evict } && {
                    &&& bytes_outcome(result) == response_of(b@)
                    &&& evict == evicts(response_of(b@))
                },
                CallEvent::Failed(reason) => r matches CallStep::Over { result, evict } && {
                    &&& result matches Err(e) && e@ == step_error(
                        self.at(),
                        self.callee(),
                        reason@,
                    )
                    &&& evict == is_broken_stream(step_error(self.at(), self.callee(), reason@))
                },
            },
    {
        match event {
            CallEvent::Done => {
                let stage = match self.stage {
                    CallStage::Opening => CallStage::Writing,
                    CallStage::Writing => CallStage::Finishing,
                    CallStage::Finishing => CallStage::Reading,
                    CallStage::Reading => CallStage::Reading,
                };
                CallStep::Next(UnaryCall { peer: self.peer, frame: self.frame, stage })
            },
            CallEvent::Received(b) => {
                let result = decode_response_frame(b.as_slice());
                let evict = match &result {
                    Ok(_) => false,
                    Err(e) => is_transport_io_error(e),
                };
                CallStep::Over { result, evict }
            },
            CallEvent::Failed(reason) => {
                let e = match self.stage {
                    CallStage::Opening => RpcError::TransportOpenSubstream {
                        node_id: self.peer,
                        reason,
                    },
                    CallStage::Writing => RpcError::TransportWrite {
                        reason: join2("write_all: ", reason.as_str()),
                    },
                    CallStage::Finishing => RpcError::TransportWrite {
                        reason: join2("finish: ", reason.as_str()),
                    },
                    CallStage::Reading => RpcError::TransportRead {
                        reason: join2("read_to_end: ", reason.as_str()),
                    },
                };
                let evict = is_transport_io_error(&e);
                CallStep::Over { result: Err(e), evict }
            },
        }
    }
}

/// A success response carries the handler's bytes to the client untouched.
pub proof fn response_roundtrip(response: Seq<u8>)
    ensures
        response_of(response_frame(response)) == Ok::<Seq<u8>, RpcErrorView>(response),
{
    assert(response_frame(response).skip(1) =~= response);
}

/// An error response gives the client the error that the server's error travels as.
pub proof fn error_response_roundtrip(e: RpcErrorView)
    requires
        wire_error_fits(wire_of(e)),
    ensures
        response_of(error_frame(e)) == Err::<Seq<u8>, RpcErrorView>(rpc_of(wire_of(e))),
{
    let body = wire_error_bytes(wire_of(e));
    assert(error_frame(e).skip(1) =~= body + seq![]);
    wire_error_roundtrip(wire_of(e), seq![]);
}

/// A refused request is answered so that the client sees the very error that the server
/// refused it with.
pub proof fn refusal_reaches_client(e: RpcErrorView)
    requires
        wire_error_fits(wire_of(e)),
        e is UnknownMethod || e is VersionMismatch || e is InvalidMethodName || e is MalformedFrame
            || e is Handler,
    ensures
        response_of(error_frame(e)) == Err::<Seq<u8>, RpcErrorView>(e),
{
    error_response_roundtrip(e);
    error_survives_wire(e);
}

/// No response makes the client drop its connection: only a broken stream does.
pub proof fn responses_never_evict(b: Seq<u8>)
    ensures
        !evicts(response_of(b)),
{
}

/// A failed step drops the connection if and only if the substream had been opened.
pub proof fn failed_step_evicts_once_open(stage: CallStage, peer: Seq<char>, reason: Seq<char>)
    ensures
        is_broken_stream(step_error(stage, peer, reason)) <==> stage != CallStage::Opening,
{
}

} // verus!
