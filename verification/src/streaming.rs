//! Frames of streaming calls: their bytes, and a reader that takes them off a stream.
//!
//! A streaming call lives on one bidirectional stream. The client opens it with the name
//! of a method; the server acknowledges; chunks then flow in both directions until each
//! side ends its own. An error frame may come at any time and may end the stream.
use vstd::prelude::*;
use vstd::string::to_string_from_display_ensures;
use vstd::utf8::encode_utf8;

use crate::codec::{
    bytes_field, flag_field, get_flag, get_text, get_u32, get_u64, lemma_flag_roundtrip,
    lemma_text_roundtrip, lemma_u32_roundtrip, lemma_u64_roundtrip, put_flag, put_text, put_u32,
    put_u64, take_flag, take_text, take_u32, take_u64, text_field, CodecError,
};
use crate::error::{error_text, RpcError, RpcErrorView, RpcResult};
use crate::text::{decimal, decimal_text, hex2, hex2_text, join2, join3};
use crate::varint::{
    lemma_pow128_monotone, lemma_pow128_values, lemma_varint_extend, lemma_varint_roundtrip,
    lemma_varint_run, lemma_varint_run_is, lemma_varint_value_bound, lemma_varint_value_prefix,
    lemma_varint_value_step, lemma_varint_width, pow128, varint, varint_run, varint_value,
};
use crate::wire::{
    put_varint, MAX_STREAMING_PAYLOAD_LEN, OPCODE_STREAMING_ERROR, OPCODE_STREAMING_OPEN_REQUEST,
    OPCODE_STREAMING_OPEN_RESPONSE, OPCODE_STREAMING_REQUEST_CHUNK, OPCODE_STREAMING_REQUEST_END,
    OPCODE_STREAMING_RESPONSE_CHUNK, OPCODE_STREAMING_RESPONSE_END,
};

verus! {

/// Opening of a streaming call.
#[derive(Clone, Debug, PartialEq, Eq)]
pub struct StreamingOpenRequest {
    /// Method to call.
    pub method_name: String,
    /// Number that the client gave the call.
    pub request_id: u64,
}

/// A [`StreamingOpenRequest`] with its string taken as a text.
#[verifier::ext_equal]
pub struct OpenRequestView {
    pub method_name: Seq<char>,
    pub request_id: u64,
}

impl View for StreamingOpenRequest {
    type V = OpenRequestView;

    open spec fn view(&self) -> OpenRequestView {
        OpenRequestView { method_name: self.method_name@, request_id: self.request_id }
    }
}

/// Whether a streaming call was accepted.
#[derive(Clone, Debug, PartialEq, Eq)]
pub enum StreamingOpenStatus {
    /// A handler was found; chunks may flow.
    Accepted,
    /// No handler was found; the reason is given.
    Refused(String),
}

/// Answer to the opening of a streaming call.
#[derive(Clone, Debug, PartialEq, Eq)]
pub struct StreamingOpenResponse {
    /// Whether the call was accepted.
    pub status: StreamingOpenStatus,
    /// Number that the client gave the call.
    pub request_id: u64,
}

/// A [`StreamingOpenResponse`] with its string taken as a text; `refusal` is the reason of
/// a refusal.
#[verifier::ext_equal]
pub struct OpenResponseView {
    pub refusal: Option<Seq<char>>,
    pub request_id: u64,
}

impl View for StreamingOpenResponse {
    type V = OpenResponseView;

    open spec fn view(&self) -> OpenResponseView {
        OpenResponseView {
            refusal: match self.status {
                StreamingOpenStatus::Accepted => None,
                StreamingOpenStatus::Refused(s) => Some(s@),
            },
            request_id: self.request_id,
        }
    }
}

/// Error inside a stream.
#[derive(Clone, Debug, PartialEq, Eq)]
pub struct StreamingError {
    /// What went wrong.
    pub message: String,
    /// Whether the sender sends nothing more.
    pub terminal: bool,
}

/// A [`StreamingError`] with its string taken as a text.
#[verifier::ext_equal]
pub struct StreamingErrorView {
    pub message: Seq<char>,
    pub terminal: bool,
}

impl View for StreamingError {
    type V = StreamingErrorView;

    open spec fn view(&self) -> StreamingErrorView {
        StreamingErrorView { message: self.message@, terminal: self.terminal }
    }
}

impl StreamingError {
    /// An error that ends the stream, with the text that `e` displays as.
    pub fn terminal_from<E: std::fmt::Display>(e: &E) -> (r: Self)
        ensures
            to_string_from_display_ensures::<E>(e, r.message),
            r.terminal,
    {
        StreamingError { message: e.to_string(), terminal: true }
    }

    /// The bytes of the error, from which [`StreamingError::from_bytes`] reads it back.
    pub fn to_bytes(&self) -> (r: Vec<u8>)
        ensures
            r@ == streaming_error_bytes(self@),
            take_streaming_error(r@) == Ok::<StreamingErrorView, CodecError>(self@),
    {
        let mut buf: Vec<u8> = Vec::new();
        put_text(&mut buf, self.message.as_str());
        put_flag(&mut buf, self.terminal);
        assert(buf@ =~= streaming_error_bytes(self@));
        assert(buf@ =~= buf@ + Seq::<u8>::empty());
        proof {
            streaming_error_roundtrip(self@, seq![]);
        }
        buf
    }

    /// Reads an error from the front of a buffer; bytes behind it are ignored.
    pub fn from_bytes(b: &[u8]) -> (r: Result<Self, CodecError>)
        ensures
            match r {
                Ok(v) => take_streaming_error(b@) == Ok::<StreamingErrorView, CodecError>(v@),
                Err(e) => take_streaming_error(b@) == Err::<StreamingErrorView, CodecError>(e),
            },
    {
        let (message, rest) = match get_text(b) {
            Ok(taken) => taken,
            Err(e) => return Err(e),
        };
        match get_flag(rest, CodecError::DeserializeBadBool) {
            Ok((terminal, _)) => Ok(StreamingError { message, terminal }),
            Err(e) => Err(e),
        }
    }
}

impl StreamingOpenRequest {
    /// The bytes of the request, from which [`StreamingOpenRequest::from_bytes`] reads it back.
    pub fn to_bytes(&self) -> (r: Vec<u8>)
        ensures
            r@ == open_request_bytes(self@),
            take_open_request(r@) == Ok::<OpenRequestView, CodecError>(self@),
    {
        let mut buf: Vec<u8> = Vec::new();
        put_text(&mut buf, self.method_name.as_str());
        put_u64(&mut buf, self.request_id);
        assert(buf@ =~= open_request_bytes(self@));
        assert(buf@ =~= buf@ + Seq::<u8>::empty());
        proof {
            open_request_roundtrip(self@, seq![]);
        }
        buf
    }

    /// Reads a request from the front of a buffer; bytes behind it are ignored.
    pub fn from_bytes(b: &[u8]) -> (r: Result<Self, CodecError>)
        ensures
            match r {
                Ok(v) => take_open_request(b@) == Ok::<OpenRequestView, CodecError>(v@),
                Err(e) => take_open_request(b@) == Err::<OpenRequestView, CodecError>(e),
            },
    {
        let (method_name, rest) = match get_text(b) {
            Ok(taken) => taken,
            Err(e) => return Err(e),
        };
        match get_u64(rest) {
            Ok((request_id, _)) => Ok(StreamingOpenRequest { method_name, request_id }),
            Err(e) => Err(e),
        }
    }
}

impl StreamingOpenResponse {
    /// The bytes of the answer, from which [`StreamingOpenResponse::from_bytes`] reads it back.
    pub fn to_bytes(&self) -> (r: Vec<u8>)
        ensures
            r@ == open_response_bytes(self@),
            take_open_response(r@) == Ok::<OpenResponseView, CodecError>(self@),
    {
        let mut buf: Vec<u8> = Vec::new();
        match &self.status {
            StreamingOpenStatus::Accepted => {
                put_u32(&mut buf, 0);
            },
            StreamingOpenStatus::Refused(reason) => {
                put_u32(&mut buf, 1);
                put_text(&mut buf, reason.as_str());
            },
        }
        put_u64(&mut buf, self.request_id);
        assert(buf@ =~= open_response_bytes(self@));
        assert(buf@ =~= buf@ + Seq::<u8>::empty());
        proof {
            open_response_roundtrip(self@, seq![]);
        }
        buf
    }

    /// Reads an answer from the front of a buffer; bytes behind it are ignored.
    pub fn from_bytes(b: &[u8]) -> (r: Result<Self, CodecError>)
        ensures
            match r {
                Ok(v) => take_open_response(b@) == Ok::<OpenResponseView, CodecError>(v@),
                Err(e) => take_open_response(b@) == Err::<OpenResponseView, CodecError>(e),
            },
    {
        let (tag, rest) = match get_u32(b) {
            Ok(taken) => taken,
            Err(e) => return Err(e),
        };
        let (status, rest) = if tag == 0 {
            (StreamingOpenStatus::Accepted, rest)
        } else if tag == 1 {
            match get_text(rest) {
                Ok((reason, rest)) => (StreamingOpenStatus::Refused(reason), rest),
                Err(e) => return Err(e),
            }
        } else {
            return Err(CodecError::SerdeDeCustom);
        };
        match get_u64(rest) {
            Ok((request_id, _)) => Ok(StreamingOpenResponse { status, request_id }),
            Err(e) => Err(e),
        }
    }
}

/// The bytes of an opening.
pub open spec fn open_request_bytes(v: OpenRequestView) -> Seq<u8> {
    text_field(v.method_name) + varint(v.request_id as nat)
}

/// Reading an opening.
pub open spec fn take_open_request(b: Seq<u8>) -> Result<OpenRequestView, CodecError> {
    match take_text(b) {
        Err(e) => Err(e),
        Ok((method_name, rest)) => match take_u64(rest) {
            Err(e) => Err(e),
            Ok((request_id, _)) => Ok(OpenRequestView { method_name, request_id }),
        },
    }
}

/// The bytes of an answer to an opening: tag 0, or tag 1 and the reason of a refusal; then
/// the number of the call.
pub open spec fn open_response_bytes(v: OpenResponseView) -> Seq<u8> {
    (match v.refusal {
        None => varint(0),
        Some(reason) => varint(1) + text_field(reason),
    }) + varint(v.request_id as nat)
}

/// Reading an answer to an opening.
pub open spec fn take_open_response(b: Seq<u8>) -> Result<OpenResponseView, CodecError> {
    match take_u32(b) {
        Err(e) => Err(e),
        Ok((tag, rest)) => if tag == 0 {
            match take_u64(rest) {
                Err(e) => Err(e),
                Ok((request_id, _)) => Ok(OpenResponseView { refusal: None, request_id }),
            }
        } else if tag == 1 {
            match take_text(rest) {
                Err(e) => Err(e),
                Ok((reason, rest)) => match take_u64(rest) {
                    Err(e) => Err(e),
                    Ok((request_id, _)) => Ok(
                        OpenResponseView { refusal: Some(reason), request_id },
                    ),
                },
            }
        } else {
            Err(CodecError::SerdeDeCustom)
        },
    }
}

/// The bytes of an error.
pub open spec fn streaming_error_bytes(v: StreamingErrorView) -> Seq<u8> {
    text_field(v.message) + flag_field(v.terminal)
}

/// Reading an error.
pub open spec fn take_streaming_error(b: Seq<u8>) -> Result<StreamingErrorView, CodecError> {
    match take_text(b) {
        Err(e) => Err(e),
        Ok((message, rest)) => match take_flag(rest, CodecError::DeserializeBadBool) {
            Err(e) => Err(e),
            Ok((terminal, _)) => Ok(StreamingErrorView { message, terminal }),
        },
    }
}

/// The error frame body for a failed handler: the message of the failure, ending the
/// stream.
pub fn handler_err_to_terminal(err: &RpcError) -> (r: StreamingError)
    ensures
        r@ == (StreamingErrorView { message: error_text(err@), terminal: true }),
{
    StreamingError { message: err.to_string(), terminal: true }
}

/// One frame of a streaming call.
#[derive(Clone, Debug, PartialEq, Eq)]
pub enum StreamingFrame {
    /// Opening of the call.
    OpenRequest(StreamingOpenRequest),
    /// Answer to the opening.
    OpenResponse(StreamingOpenResponse),
    /// Chunk from the client.
    RequestChunk(Vec<u8>),
    /// Chunk from the server.
    ResponseChunk(Vec<u8>),
    /// The client sends no more chunks.
    RequestEnd,
    /// The server sends no more chunks.
    ResponseEnd,
    /// Error inside the stream.
    Error(StreamingError),
}

/// A [`StreamingFrame`] with its contents taken by their views.
#[verifier::ext_equal]
pub enum FrameView {
    OpenRequest(OpenRequestView),
    OpenResponse(OpenResponseView),
    RequestChunk(Seq<u8>),
    ResponseChunk(Seq<u8>),
    RequestEnd,
    ResponseEnd,
    Error(StreamingErrorView),
}

impl View for StreamingFrame {
    type V = FrameView;

    open spec fn view(&self) -> FrameView {
        match *self {
            StreamingFrame::OpenRequest(v) => FrameView::OpenRequest(v@),
            StreamingFrame::OpenResponse(v) => FrameView::OpenResponse(v@),
            StreamingFrame::RequestChunk(v) => FrameView::RequestChunk(v@),
            StreamingFrame::ResponseChunk(v) => FrameView::ResponseChunk(v@),
            StreamingFrame::RequestEnd => FrameView::RequestEnd,
            StreamingFrame::ResponseEnd => FrameView::ResponseEnd,
            StreamingFrame::Error(v) => FrameView::Error(v@),
        }
    }
}

/// The opcode of a frame.
pub open spec fn frame_opcode(f: FrameView) -> u8 {
    match f {
        FrameView::OpenRequest(_) => OPCODE_STREAMING_OPEN_REQUEST,
        FrameView::OpenResponse(_) => OPCODE_STREAMING_OPEN_RESPONSE,
        FrameView::RequestChunk(_) => OPCODE_STREAMING_REQUEST_CHUNK,
        FrameView::ResponseChunk(_) => OPCODE_STREAMING_RESPONSE_CHUNK,
        FrameView::RequestEnd => OPCODE_STREAMING_REQUEST_END,
        FrameView::ResponseEnd => OPCODE_STREAMING_RESPONSE_END,
        FrameView::Error(_) => OPCODE_STREAMING_ERROR,
    }
}

/// The body of a frame; the two end frames have none.
pub open spec fn frame_body(f: FrameView) -> Option<Seq<u8>> {
    match f {
        FrameView::OpenRequest(v) => Some(open_request_bytes(v)),
        FrameView::OpenResponse(v) => Some(open_response_bytes(v)),
        FrameView::RequestChunk(b) => Some(b),
        FrameView::ResponseChunk(b) => Some(b),
        FrameView::RequestEnd => None,
        FrameView::ResponseEnd => None,
        FrameView::Error(v) => Some(streaming_error_bytes(v)),
    }
}

/// The bytes of a frame: its opcode, then its body with the body's length in front.
pub open spec fn frame_bytes(f: FrameView) -> Seq<u8> {
    match frame_body(f) {
        Some(body) => seq![frame_opcode(f)] + bytes_field(body),
        None => seq![frame_opcode(f)],
    }
}

/// Appends a 64-bit integer.
pub fn encode_varint_u64(value: u64, buf: &mut Vec<u8>) -> (r: RpcResult<()>)
    ensures
        r is Ok,
        final(buf)@ == old(buf)@ + varint(value as nat),
{
    put_varint(buf, value);
    Ok(())
}

/// Appends `[opcode | varint(length) | body]`.
pub fn write_length_prefixed(buf: &mut Vec<u8>, opcode: u8, body: &[u8])
    ensures
        final(buf)@ == old(buf)@ + (seq![opcode] + bytes_field(body@)),
{
    buf.push(opcode);
    put_varint(buf, body.len() as u64);
    buf.extend_from_slice(body);
    assert(buf@ =~= old(buf)@ + (seq![opcode] + bytes_field(body@)));
}

/// Appends a frame without a body.
pub fn write_single_opcode(buf: &mut Vec<u8>, opcode: u8)
    ensures
        final(buf)@ == old(buf)@ + seq![opcode],
{
    buf.push(opcode);
    assert(buf@ =~= old(buf)@ + seq![opcode]);
}

/// Appends the frame that opens a call.
pub fn write_open_request(buf: &mut Vec<u8>, body: &StreamingOpenRequest)
    ensures
        final(buf)@ == old(buf)@ + frame_bytes(FrameView::OpenRequest(body@)),
{
    write_length_prefixed(buf, OPCODE_STREAMING_OPEN_REQUEST, body.to_bytes().as_slice());
}

/// Appends the frame that answers an opening.
pub fn write_open_response(buf: &mut Vec<u8>, body: &StreamingOpenResponse)
    ensures
        final(buf)@ == old(buf)@ + frame_bytes(FrameView::OpenResponse(body@)),
{
    write_length_prefixed(buf, OPCODE_STREAMING_OPEN_RESPONSE, body.to_bytes().as_slice());
}

/// Appends a chunk from the client.
pub fn write_request_chunk(buf: &mut Vec<u8>, bytes: &[u8])
    ensures
        final(buf)@ == old(buf)@ + frame_bytes(FrameView::RequestChunk(bytes@)),
{
    write_length_prefixed(buf, OPCODE_STREAMING_REQUEST_CHUNK, bytes);
}

/// Appends a chunk from the server.
pub fn write_response_chunk(buf: &mut Vec<u8>, bytes: &[u8])
    ensures
        final(buf)@ == old(buf)@ + frame_bytes(FrameView::ResponseChunk(bytes@)),
{
    write_length_prefixed(buf, OPCODE_STREAMING_RESPONSE_CHUNK, bytes);
}

/// Appends the client's end frame.
pub fn write_request_end(buf: &mut Vec<u8>)
    ensures
        final(buf)@ == old(buf)@ + frame_bytes(FrameView::RequestEnd),
{
    write_single_opcode(buf, OPCODE_STREAMING_REQUEST_END);
}

/// Appends the server's end frame.
pub fn write_response_end(buf: &mut Vec<u8>)
    ensures
        final(buf)@ == old(buf)@ + frame_bytes(FrameView::ResponseEnd),
{
    write_single_opcode(buf, OPCODE_STREAMING_RESPONSE_END);
}

/// Appends an error frame.
pub fn write_streaming_error(buf: &mut Vec<u8>, body: &StreamingError)
    ensures
        final(buf)@ == old(buf)@ + frame_bytes(FrameView::Error(body@)),
{
    write_length_prefixed(buf, OPCODE_STREAMING_ERROR, body.to_bytes().as_slice());
}

/// Appends any frame.
pub fn write_frame(buf: &mut Vec<u8>, frame: &StreamingFrame)
    ensures
        final(buf)@ == old(buf)@ + frame_bytes(frame@),
{
    match frame {
        StreamingFrame::OpenRequest(body) => write_open_request(buf, body),
        StreamingFrame::OpenResponse(body) => write_open_response(buf, body),
        StreamingFrame::RequestChunk(bytes) => write_request_chunk(buf, bytes.as_slice()),
        StreamingFrame::ResponseChunk(bytes) => write_response_chunk(buf, bytes.as_slice()),
        StreamingFrame::RequestEnd => write_request_end(buf),
        StreamingFrame::ResponseEnd => write_response_end(buf),
        StreamingFrame::Error(body) => write_streaming_error(buf, body),
    }
}

/// Whether frames with this opcode have a body.
pub open spec fn has_body(opcode: u8) -> bool {
    ||| opcode == OPCODE_STREAMING_OPEN_REQUEST
    ||| opcode == OPCODE_STREAMING_OPEN_RESPONSE
    ||| opcode == OPCODE_STREAMING_REQUEST_CHUNK
    ||| opcode == OPCODE_STREAMING_RESPONSE_CHUNK
    ||| opcode == OPCODE_STREAMING_ERROR
}

/// The frame with the given opcode and body.
pub open spec fn decode_body(opcode: u8, body: Seq<u8>) -> Result<FrameView, RpcErrorView> {
    if opcode == OPCODE_STREAMING_OPEN_REQUEST {
        match take_open_request(body) {
            Ok(v) => Ok(FrameView::OpenRequest(v)),
            Err(e) => Err(RpcErrorView::Codec(e)),
        }
    } else if opcode == OPCODE_STREAMING_OPEN_RESPONSE {
        match take_open_response(body) {
            Ok(v) => Ok(FrameView::OpenResponse(v)),
            Err(e) => Err(RpcErrorView::Codec(e)),
        }
    } else if opcode == OPCODE_STREAMING_REQUEST_CHUNK {
        Ok(FrameView::RequestChunk(body))
    } else if opcode == OPCODE_STREAMING_RESPONSE_CHUNK {
        Ok(FrameView::ResponseChunk(body))
    } else {
        match take_streaming_error(body) {
            Ok(v) => Ok(FrameView::Error(v)),
            Err(e) => Err(RpcErrorView::Codec(e)),
        }
    }
}

/// What the bytes read so far say.
pub enum FrameParse {
    /// The frame is not complete; at least so many more bytes belong to it.
    Need(nat),
    /// The frame is complete.
    Complete(FrameView),
    /// The bytes are no frame.
    Bad(RpcErrorView),
}

/// What the bytes behind an opcode say: a length of at most ten bytes, of which 64 bits
/// count, and a body of that length.
pub open spec fn parse_sized(opcode: u8, t: Seq<u8>) -> FrameParse {
    let n = varint_run(t);
    if n >= 10 {
        FrameParse::Bad(RpcErrorView::MalformedFrame("streaming varint > 10 bytes"@))
    } else if n == t.len() {
        FrameParse::Need(1)
    } else {
        let len = varint_value(t, n + 1) % 0x1_0000_0000_0000_0000;
        let body = t.skip((n + 1) as int);
        if len > usize::MAX {
            FrameParse::Bad(
                RpcErrorView::MalformedFrame(
                    "streaming payload length overflow: out of range integral type conversion attempted"@,
                ),
            )
        } else if len > MAX_STREAMING_PAYLOAD_LEN {
            FrameParse::Bad(
                RpcErrorView::MalformedFrame(
                    "streaming payload length "@ + decimal(len) + " exceeds maximum "@ + decimal(
                        MAX_STREAMING_PAYLOAD_LEN as nat,
                    ),
                ),
            )
        } else if body.len() < len {
            FrameParse::Need((len - body.len()) as nat)
        } else {
            match decode_body(opcode, body.take(len as int)) {
                Ok(f) => FrameParse::Complete(f),
                Err(e) => FrameParse::Bad(e),
            }
        }
    }
}

/// What the first bytes of a stream say.
pub open spec fn parse_frame(b: Seq<u8>) -> FrameParse {
    if b.len() == 0 {
        FrameParse::Need(1)
    } else if b[0] == OPCODE_STREAMING_REQUEST_END {
        FrameParse::Complete(FrameView::RequestEnd)
    } else if b[0] == OPCODE_STREAMING_RESPONSE_END {
        FrameParse::Complete(FrameView::ResponseEnd)
    } else if has_body(b[0]) {
        parse_sized(b[0], b.skip(1))
    } else {
        FrameParse::Bad(
            RpcErrorView::MalformedFrame("unexpected streaming opcode 0x"@ + hex2(b[0])),
        )
    }
}

/// Decodes the body of a frame.
fn body_frame(opcode: u8, body: &[u8]) -> (r: RpcResult<StreamingFrame>)
    requires
        has_body(opcode),
    ensures
        match r {
            Ok(f) => decode_body(opcode, body@) == Ok::<FrameView, RpcErrorView>(f@),
            Err(e) => decode_body(opcode, body@) == Err::<FrameView, RpcErrorView>(e@),
        },
{
    if opcode == OPCODE_STREAMING_OPEN_REQUEST {
        match StreamingOpenRequest::from_bytes(body) {
            Ok(v) => Ok(StreamingFrame::OpenRequest(v)),
            Err(e) => Err(RpcError::Codec(e)),
        }
    } else if opcode == OPCODE_STREAMING_OPEN_RESPONSE {
        match StreamingOpenResponse::from_bytes(body) {
            Ok(v) => Ok(StreamingFrame::OpenResponse(v)),
            Err(e) => Err(RpcError::Codec(e)),
        }
    } else if opcode == OPCODE_STREAMING_REQUEST_CHUNK {
        Ok(StreamingFrame::RequestChunk(vstd::slice::slice_to_vec(body)))
    } else if opcode == OPCODE_STREAMING_RESPONSE_CHUNK {
        Ok(StreamingFrame::ResponseChunk(vstd::slice::slice_to_vec(body)))
    } else {
        match StreamingError::from_bytes(body) {
            Ok(v) => Ok(StreamingFrame::Error(v)),
            Err(e) => Err(RpcError::Codec(e)),
        }
    }
}

/// How far a frame has been read.
enum ReadStage {
    /// Nothing was read.
    Opcode,
    /// The opcode and `count` bytes of the length were read; they spell `value`, and the
    /// next one counts `scale` times.
    Length { opcode: u8, count: u8, value: u64, scale: u64 },
    /// Opcode and length were read; the body has `len` bytes.
    Body { opcode: u8, len: usize },
}

/// How many bytes are read next at a stage.
spec fn stage_wants(stage: ReadStage) -> nat {
    match stage {
        ReadStage::Body { len, .. } => len as nat,
        _ => 1,
    }
}

/// Whether `stage` is where reading stands after the bytes `seen`.
spec fn stage_of(stage: ReadStage, seen: Seq<u8>) -> bool {
    let t = seen.skip(1);
    match stage {
        ReadStage::Opcode => seen.len() == 0,
        ReadStage::Length { opcode, count, value, scale } => {
            &&& seen.len() == 1 + count
            &&& seen[0] == opcode
            &&& has_body(opcode)
            &&& count <= 9
            &&& varint_run(t) == count
            &&& value == varint_value(t, count as nat)
            &&& scale == pow128(count as nat)
        },
        ReadStage::Body { opcode, len } => {
            &&& seen.len() >= 2
            &&& seen[0] == opcode
            &&& has_body(opcode)
            &&& varint_run(t) == t.len() - 1
            &&& t.len() <= 10
            &&& varint_value(t, t.len()) % 0x1_0000_0000_0000_0000 == len
            &&& 0 < len <= MAX_STREAMING_PAYLOAD_LEN
        },
    }
}

/// What is read next belongs to the frame.
proof fn lemma_stage_wants(stage: ReadStage, seen: Seq<u8>)
    requires
        stage_of(stage, seen),
    ensures
        parse_frame(seen) == FrameParse::Need(stage_wants(stage)),
{
    if stage is Body {
        let t = seen.skip(1);
        assert(t.skip(t.len() as int) =~= seq![]);
    }
}

/// Takes one frame off a stream, asking for exactly the bytes that belong to it.
///
/// The caller reads [`FrameReader::wanted`] bytes, hands them to [`FrameReader::feed`] and
/// goes on with the reader that comes back until a frame or an error does. A failed read
/// goes to [`FrameReader::read_failed`].
pub struct FrameReader {
    stage: ReadStage,
    seen: Ghost<Seq<u8>>,
}

/// What came of the bytes handed to a reader.
pub enum ReadStep {
    /// The frame is not complete.
    More(FrameReader),
    /// The frame.
    Frame(StreamingFrame),
    /// The bytes are no frame.
    Failed(RpcError),
}

/// Why a read of an exact number of bytes failed.
#[derive(Clone, Debug, PartialEq, Eq)]
pub enum ReadFault {
    /// The peer finished the stream after so many of the bytes.
    FinishedEarly(usize),
    /// The stream was closed before.
    ClosedStream,
    /// Anything else, with its message.
    Failed(String),
}

/// A [`ReadFault`] with its string taken as a text.
pub enum ReadFaultView {
    FinishedEarly(usize),
    ClosedStream,
    Failed(Seq<char>),
}

impl View for ReadFault {
    type V = ReadFaultView;

    open spec fn view(&self) -> ReadFaultView {
        match *self {
            ReadFault::FinishedEarly(n) => ReadFaultView::FinishedEarly(n),
            ReadFault::ClosedStream => ReadFaultView::ClosedStream,
            ReadFault::Failed(s) => ReadFaultView::Failed(s@),
        }
    }
}

/// How a failed read reads inside an error message.
pub open spec fn read_fault_text(f: ReadFaultView) -> Seq<char> {
    match f {
        ReadFaultView::FinishedEarly(n) => "stream finished early ("@ + decimal(n as nat)
            + " bytes read)"@,
        ReadFaultView::ClosedStream => "closed stream"@,
        ReadFaultView::Failed(s) => s,
    }
}

/// What a failed read means after the bytes `seen`: a clean end (`Ok`) when the peer
/// finished the stream and not one byte of a frame was there, else an error that says where
/// the frame broke off.
pub open spec fn read_failure(seen: Seq<u8>, f: ReadFaultView) -> Result<(), RpcErrorView> {
    if seen.len() == 0 {
        match f {
            ReadFaultView::FinishedEarly(n) => if n == 0 {
                Ok(())
            } else {
                Err(
                    RpcErrorView::TransportRead {
                        reason: "partial frame: read "@ + decimal(n as nat) + " bytes before EOF"@,
                    },
                )
            },
            _ => Err(RpcErrorView::TransportRead { reason: read_fault_text(f) }),
        }
    } else if varint_run(seen.skip(1)) == seen.len() - 1 {
        let message = "streaming varint: "@ + read_fault_text(f);
        if f is FinishedEarly {
            Err(RpcErrorView::MalformedFrame(message))
        } else {
            Err(RpcErrorView::TransportRead { reason: message })
        }
    } else {
        Err(
            RpcErrorView::TransportRead {
                reason: "streaming payload body: "@ + read_fault_text(f),
            },
        )
    }
}

/// A stream ends cleanly only where the peer finished it between frames.
pub proof fn clean_end_is_between_frames(seen: Seq<u8>, f: ReadFaultView)
    ensures
        read_failure(seen, f) is Ok <==> seen.len() == 0 && f == ReadFaultView::FinishedEarly(0),
{
}

impl ReadFault {
    /// Renders the fault as it reads inside an error message.
    pub fn to_string(&self) -> (r: String)
        ensures
            r@ == read_fault_text(self@),
    {
        match self {
            ReadFault::FinishedEarly(n) => join3(
                "stream finished early (",
                decimal_text(*n as u64).as_str(),
                " bytes read)",
            ),
            ReadFault::ClosedStream => "closed stream".to_owned(),
            ReadFault::Failed(s) => s.clone(),
        }
    }
}

/// What a failed read before the first byte of a frame means: a clean end where the peer
/// finished the stream, an error in all other cases.
pub fn classify_eof_or_error(fault: ReadFault) -> (r: RpcResult<()>)
    ensures
        match r {
            Ok(()) => read_failure(seq![], fault@) == Ok::<(), RpcErrorView>(()),
            Err(e) => read_failure(seq![], fault@) == Err::<(), RpcErrorView>(e@),
        },
{
    match fault {
        ReadFault::FinishedEarly(n) => if n == 0 {
            Ok(())
        } else {
            Err(
                RpcError::TransportRead {
                    reason: join3(
                        "partial frame: read ",
                        decimal_text(n as u64).as_str(),
                        " bytes before EOF",
                    ),
                },
            )
        },
        other => Err(RpcError::TransportRead { reason: other.to_string() }),
    }
}

impl FrameReader {
    /// The bytes read so far.
    pub closed spec fn seen(&self) -> Seq<u8> {
        self.seen@
    }

    /// How many bytes the reader asks for next.
    pub closed spec fn wants(&self) -> nat {
        stage_wants(self.stage)
    }

    #[verifier::type_invariant]
    spec fn inv(self) -> bool {
        stage_of(self.stage, self.seen@)
    }

    /// A reader at the start of a frame.
    pub fn new() -> (r: Self)
        ensures
            r.seen() == Seq::<u8>::empty(),
            r.wants() == 1,
    {
        FrameReader { stage: ReadStage::Opcode, seen: Ghost(Seq::empty()) }
    }

    /// How many bytes to read next.
    pub fn wanted(&self) -> (r: usize)
        ensures
            r == self.wants(),
            parse_frame(self.seen()) == FrameParse::Need(r as nat),
            1 <= r <= MAX_STREAMING_PAYLOAD_LEN,
    {
        proof {
            use_type_invariant(self);
            lemma_stage_wants(self.stage, self.seen@);
        }
        match &self.stage {
            ReadStage::Opcode => 1,
            ReadStage::Length { .. } => 1,
            ReadStage::Body { len, .. } => *len,
        }
    }

    /// Takes the next bytes of the frame.
    pub fn feed(self, bytes: &[u8]) -> (r: ReadStep)
        requires
            bytes@.len() == self.wants(),
        ensures
            match r {
                ReadStep::More(next) => {
                    &&& next.seen() == self.seen() + bytes@
                    &&& parse_frame(self.seen() + bytes@) is Need
                },
                ReadStep::Frame(f) => parse_frame(self.seen() + bytes@) == FrameParse::Complete(
                    f@,
                ),
                ReadStep::Failed(e) => parse_frame(self.seen() + bytes@) == FrameParse::Bad(e@),
            },
    {
        proof {
            use_type_invariant(&self);
        }
        let ghost before = self.seen@;
        let ghost after = before + bytes@;
        match self.stage {
            ReadStage::Opcode => {
                let opcode: u8 = bytes[0];
                assert(after =~= seq![opcode]);
                Self::after_opcode(opcode, Ghost(after))
            },
            ReadStage::Length { opcode, count, value, scale } => {
                let digit: u8 = bytes[0];
                assert(after =~= before.push(digit));
                Self::after_digit(opcode, count, value, scale, digit, Ghost(before))
            },
            ReadStage::Body { opcode, .. } => Self::after_body(opcode, bytes, Ghost(before)),
        }
    }

    /// Goes on behind the opcode.
    fn after_opcode(opcode: u8, seen: Ghost<Seq<u8>>) -> (r: ReadStep)
        requires
            seen@ == seq![opcode],
        ensures
            match r {
                ReadStep::More(next) => next.seen() == seen@ && parse_frame(seen@) is Need,
                ReadStep::Frame(f) => parse_frame(seen@) == FrameParse::Complete(f@),
                ReadStep::Failed(e) => parse_frame(seen@) == FrameParse::Bad(e@),
            },
    {
        proof {
            lemma_pow128_values();
            assert(seen@.skip(1) =~= seq![]);
            assert(varint_value(seen@.skip(1), 0) == 0);
        }
        if opcode == OPCODE_STREAMING_REQUEST_END {
            ReadStep::Frame(StreamingFrame::RequestEnd)
        } else if opcode == OPCODE_STREAMING_RESPONSE_END {
            ReadStep::Frame(StreamingFrame::ResponseEnd)
        } else if opcode == OPCODE_STREAMING_OPEN_REQUEST || opcode
            == OPCODE_STREAMING_OPEN_RESPONSE || opcode == OPCODE_STREAMING_REQUEST_CHUNK || opcode
            == OPCODE_STREAMING_RESPONSE_CHUNK || opcode == OPCODE_STREAMING_ERROR {
            ReadStep::More(
                FrameReader {
                    stage: ReadStage::Length { opcode, count: 0, value: 0, scale: 1 },
                    seen,
                },
            )
        } else {
            ReadStep::Failed(
                RpcError::MalformedFrame(
                    join2("unexpected streaming opcode 0x", hex2_text(opcode).as_str()),
                ),
            )
        }
    }

    /// Goes on behind one byte of the length.
    fn after_digit(
        opcode: u8,
        count: u8,
        value: u64,
        scale: u64,
        digit: u8,
        before: Ghost<Seq<u8>>,
    ) -> (r: ReadStep)
        requires
            before@.len() == 1 + count,
            before@[0] == opcode,
            has_body(opcode),
            count <= 9,
            varint_run(before@.skip(1)) == count,
            value == varint_value(before@.skip(1), count as nat),
            scale == pow128(count as nat),
        ensures
            match r {
                ReadStep::More(next) => {
                    &&& next.seen() == before@.push(digit)
                    &&& parse_frame(before@.push(digit)) is Need
                },
                ReadStep::Frame(f) => parse_frame(before@.push(digit)) == FrameParse::Complete(f@),
                ReadStep::Failed(e) => parse_frame(before@.push(digit)) == FrameParse::Bad(e@),
            },
    {
        let ghost after = before@.push(digit);
        let ghost t = before@.skip(1);
        proof {
            assert(after.skip(1) =~= t.push(digit));
            lemma_length_step(t, digit);
            lemma_pow128_values();
            lemma_varint_value_bound(t, count as nat);
            pow128_upto_nine(count as nat);
        }
        let low: u64 = (digit % 128) as u64;
        let total: u64 = if count < 9 {
            assert(low * scale <= 127 * scale) by (nonlinear_arith)
                requires
                    low <= 127,
            ;
            value + low * scale
        } else {
            let odd: u64 = low % 2;
            assert(odd * scale <= scale) by (nonlinear_arith)
                requires
                    odd <= 1,
            ;
            value + odd * scale
        };
        proof {
            lemma_length_total(t, digit, count as nat, value, scale, total);
        }
        if digit < 128 {
            return Self::after_length(opcode, total, Ghost(after));
        }
        if count >= 9 {
            return ReadStep::Failed(
                RpcError::MalformedFrame("streaming varint > 10 bytes".to_owned()),
            );
        }
        ReadStep::More(
            FrameReader {
                stage: ReadStage::Length {
                    opcode,
                    count: count + 1,
                    value: total,
                    scale: scale * 128,
                },
                seen: Ghost(after),
            },
        )
    }

    /// Goes on behind the length.
    fn after_length(opcode: u8, len: u64, seen: Ghost<Seq<u8>>) -> (r: ReadStep)
        requires
            seen@.len() >= 2,
            seen@[0] == opcode,
            has_body(opcode),
            varint_run(seen@.skip(1)) == seen@.len() - 2,
            seen@.len() <= 11,
            varint_value(seen@.skip(1), (seen@.len() - 1) as nat) % 0x1_0000_0000_0000_0000 == len,
        ensures
            match r {
                ReadStep::More(next) => next.seen() == seen@ && parse_frame(seen@) is Need,
                ReadStep::Frame(f) => parse_frame(seen@) == FrameParse::Complete(f@),
                ReadStep::Failed(e) => parse_frame(seen@) == FrameParse::Bad(e@),
            },
    {
        proof {
            let t = seen@.skip(1);
            assert(t.skip(t.len() as int) =~= seq![]);
            assert(Seq::<u8>::empty().take(0) =~= seq![]);
        }
        if len > usize::MAX as u64 {
            return ReadStep::Failed(
                RpcError::MalformedFrame(
                    "streaming payload length overflow: out of range integral type conversion attempted".to_owned(),
                ),
            );
        }
        let wanted: usize = len as usize;
        if wanted > MAX_STREAMING_PAYLOAD_LEN {
            let head = join3(
                "streaming payload length ",
                decimal_text(len).as_str(),
                " exceeds maximum ",
            );
            return ReadStep::Failed(
                RpcError::MalformedFrame(
                    join2(head.as_str(), decimal_text(MAX_STREAMING_PAYLOAD_LEN as u64).as_str()),
                ),
            );
        }
        if wanted == 0 {
            let empty: Vec<u8> = Vec::new();
            assert(empty@ =~= seq![]);
            return match body_frame(opcode, empty.as_slice()) {
                Ok(f) => ReadStep::Frame(f),
                Err(e) => ReadStep::Failed(e),
            };
        }
        ReadStep::More(FrameReader { stage: ReadStage::Body { opcode, len: wanted }, seen })
    }

    /// Decodes the body.
    fn after_body(opcode: u8, bytes: &[u8], before: Ghost<Seq<u8>>) -> (r: ReadStep)
        requires
            before@.len() >= 2,
            before@[0] == opcode,
            has_body(opcode),
            varint_run(before@.skip(1)) == before@.len() - 2,
            before@.len() <= 11,
            varint_value(before@.skip(1), (before@.len() - 1) as nat) % 0x1_0000_0000_0000_0000
                == bytes@.len(),
            bytes@.len() <= MAX_STREAMING_PAYLOAD_LEN,
        ensures
            match r {
                ReadStep::More(next) => false,
                ReadStep::Frame(f) => parse_frame(before@ + bytes@) == FrameParse::Complete(f@),
                ReadStep::Failed(e) => parse_frame(before@ + bytes@) == FrameParse::Bad(e@),
            },
    {
        proof {
            let t = before@.skip(1);
            lemma_varint_extend(t, bytes@);
            assert((before@ + bytes@).skip(1) =~= t + bytes@);
            assert((t + bytes@).skip(t.len() as int) =~= bytes@);
            assert(bytes@.take(bytes@.len() as int) =~= bytes@);
        }
        match body_frame(opcode, bytes) {
            Ok(f) => ReadStep::Frame(f),
            Err(e) => ReadStep::Failed(e),
        }
    }

    /// What a failed read means at this point: a clean end, or an error.
    pub fn read_failed(&self, fault: ReadFault) -> (r: RpcResult<()>)
        ensures
            match r {
                Ok(()) => read_failure(self.seen(), fault@) == Ok::<(), RpcErrorView>(()),
                Err(e) => read_failure(self.seen(), fault@) == Err::<(), RpcErrorView>(e@),
            },
    {
        proof {
            use_type_invariant(self);
        }
        match &self.stage {
            ReadStage::Opcode => {
                assert(self.seen@ =~= seq![]);
                classify_eof_or_error(fault)
            },
            ReadStage::Length { .. } => {
                let message = join2("streaming varint: ", fault.to_string().as_str());
                match fault {
                    ReadFault::FinishedEarly(_) => Err(RpcError::MalformedFrame(message)),
                    _ => Err(RpcError::TransportRead { reason: message }),
                }
            },
            ReadStage::Body { .. } => Err(
                RpcError::TransportRead {
                    reason: join2("streaming payload body: ", fault.to_string().as_str()),
                },
            ),
        }
    }
}

/// The powers of 128 with an exponent of at most nine fit 64 bits.
proof fn pow128_upto_nine(n: nat)
    requires
        n <= 9,
    ensures
        1 <= pow128(n) <= 0x8000_0000_0000_0000,
        n < 9 ==> pow128(n) <= 0x100_0000_0000_0000,
{
    lemma_pow128_values();
    lemma_pow128_monotone(0, n);
    lemma_pow128_monotone(n, 9);
    if n < 9 {
        lemma_pow128_monotone(n, 8);
    }
}

/// What one more byte does to an unfinished length.
proof fn lemma_length_step(t: Seq<u8>, digit: u8)
    requires
        varint_run(t) == t.len(),
    ensures
        varint_run(t.push(digit)) == (if digit >= 128 {
            t.len() + 1
        } else {
            t.len()
        }),
        varint_value(t.push(digit), t.len() + 1) == varint_value(t, t.len()) + (digit % 128) as nat
            * pow128(t.len()),
{
    let u = t.push(digit);
    lemma_varint_run(t);
    assert forall|i: int| 0 <= i < t.len() implies #[trigger] u[i] >= 128 by {
        assert(t[i] >= 128);
    }
    lemma_varint_run_is(
        u,
        if digit >= 128 {
            t.len() + 1
        } else {
            t.len()
        },
    );
    lemma_varint_value_step(u, t.len());
    lemma_varint_value_prefix(t, seq![digit], t.len());
    assert(t + seq![digit] =~= u);
}

/// The running total of a length is its value modulo two to the power of 64.
proof fn lemma_length_total(
    t: Seq<u8>,
    digit: u8,
    count: nat,
    value: u64,
    scale: u64,
    total: u64,
)
    requires
        t.len() == count <= 9,
        varint_run(t) == count,
        value == varint_value(t, count),
        scale == pow128(count),
        count < 9 ==> total == value + (digit % 128) * scale,
        count == 9 ==> total == value + ((digit % 128) % 2) * scale,
    ensures
        total == varint_value(t.push(digit), count + 1) % 0x1_0000_0000_0000_0000,
        count < 9 ==> total == varint_value(t.push(digit), count + 1),
        count < 9 ==> scale * 128 == pow128(count + 1),
        count < 9 ==> scale * 128 <= u64::MAX,
{
    lemma_length_step(t, digit);
    lemma_pow128_values();
    pow128_upto_nine(count);
    let d = (digit % 128) as nat;
    if count == 9 {
        lemma_varint_value_bound(t, 9);
        let (q, r) = (d / 2, d % 2);
        assert(d * 0x8000_0000_0000_0000 == r * 0x8000_0000_0000_0000 + q
            * 0x1_0000_0000_0000_0000);
        assert(total == value + r * 0x8000_0000_0000_0000);
        assert(varint_value(t.push(digit), 10) == total + q * 0x1_0000_0000_0000_0000);
    }
}

/// Whether every text of a frame fits the machine's address space, as every string in
/// memory does, and its body the limit of a streaming frame.
pub open spec fn frame_fits(f: FrameView) -> bool {
    &&& frame_body(f) matches Some(body) ==> body.len() <= MAX_STREAMING_PAYLOAD_LEN
    &&& match f {
        FrameView::OpenRequest(v) => encode_utf8(v.method_name).len() <= usize::MAX,
        FrameView::OpenResponse(v) => v.refusal matches Some(s) ==> encode_utf8(s).len()
            <= usize::MAX,
        FrameView::Error(v) => encode_utf8(v.message).len() <= usize::MAX,
        _ => true,
    }
}

/// An opening that was written reads back, whatever follows it.
pub proof fn open_request_roundtrip(v: OpenRequestView, rest: Seq<u8>)
    requires
        encode_utf8(v.method_name).len() <= usize::MAX,
    ensures
        take_open_request(open_request_bytes(v) + rest) == Ok::<OpenRequestView, CodecError>(v),
{
    let id = varint(v.request_id as nat);
    assert(open_request_bytes(v) + rest =~= text_field(v.method_name) + (id + rest));
    lemma_text_roundtrip(v.method_name, id + rest);
    lemma_u64_roundtrip(v.request_id, rest);
}

/// An answer to an opening that was written reads back, whatever follows it.
pub proof fn open_response_roundtrip(v: OpenResponseView, rest: Seq<u8>)
    requires
        v.refusal matches Some(s) ==> encode_utf8(s).len() <= usize::MAX,
    ensures
        take_open_response(open_response_bytes(v) + rest) == Ok::<OpenResponseView, CodecError>(v),
{
    let id = varint(v.request_id as nat);
    lemma_u64_roundtrip(v.request_id, rest);
    match v.refusal {
        None => {
            assert(open_response_bytes(v) + rest =~= varint(0) + (id + rest));
            lemma_u32_roundtrip(0, id + rest);
        },
        Some(s) => {
            assert(open_response_bytes(v) + rest =~= varint(1) + (text_field(s) + (id + rest)));
            lemma_u32_roundtrip(1, text_field(s) + (id + rest));
            lemma_text_roundtrip(s, id + rest);
        },
    }
}

/// An error that was written reads back, whatever follows it.
pub proof fn streaming_error_roundtrip(v: StreamingErrorView, rest: Seq<u8>)
    requires
        encode_utf8(v.message).len() <= usize::MAX,
    ensures
        take_streaming_error(streaming_error_bytes(v) + rest) == Ok::<
            StreamingErrorView,
            CodecError,
        >(v),
{
    let flag = flag_field(v.terminal);
    assert(streaming_error_bytes(v) + rest =~= text_field(v.message) + (flag + rest));
    lemma_text_roundtrip(v.message, flag + rest);
    lemma_flag_roundtrip(v.terminal, CodecError::DeserializeBadBool, rest);
}

/// A body decodes to the frame that it was made for.
proof fn lemma_body_roundtrip(f: FrameView)
    requires
        frame_fits(f),
        frame_body(f) is Some,
    ensures
        has_body(frame_opcode(f)),
        decode_body(frame_opcode(f), frame_body(f)->Some_0) == Ok::<FrameView, RpcErrorView>(f),
{
    let body = frame_body(f)->Some_0;
    assert(body + Seq::<u8>::empty() =~= body);
    match f {
        FrameView::OpenRequest(v) => open_request_roundtrip(v, seq![]),
        FrameView::OpenResponse(v) => open_response_roundtrip(v, seq![]),
        FrameView::Error(v) => streaming_error_roundtrip(v, seq![]),
        _ => {},
    }
}

/// A body with its length in front is decoded as that body.
pub proof fn lemma_sized_complete(opcode: u8, body: Seq<u8>)
    requires
        body.len() <= MAX_STREAMING_PAYLOAD_LEN,
    ensures
        parse_sized(opcode, bytes_field(body)) == (match decode_body(opcode, body) {
            Ok(f) => FrameParse::Complete(f),
            Err(e) => FrameParse::Bad(e),
        }),
{
    let t = bytes_field(body);
    let n = varint_run(t);
    lemma_varint_roundtrip(body.len(), body);
    lemma_pow128_values();
    lemma_varint_width(body.len(), 10, 2);
    assert(t == varint(body.len()) + body);
    assert(n < 10 && n < t.len());
    assert(varint_value(t, n + 1) % 0x1_0000_0000_0000_0000 == body.len());
    assert(t.skip((n + 1) as int) == body);
    assert(body.take(body.len() as int) == body);
}

/// A proper beginning of a body with its length in front calls for the rest, or for one
/// byte more of the length.
pub proof fn lemma_sized_beginning(opcode: u8, body: Seq<u8>, k: nat)
    requires
        body.len() <= MAX_STREAMING_PAYLOAD_LEN,
        k < bytes_field(body).len(),
    ensures
        parse_sized(opcode, bytes_field(body).take(k as int)) matches FrameParse::Need(n) && 1 <= n
            <= bytes_field(body).len() - k,
{
    let head = varint(body.len());
    let t = bytes_field(body).take(k as int);
    lemma_pow128_values();
    lemma_varint_width(body.len(), 10, 2);
    lemma_varint_roundtrip(body.len(), seq![]);
    assert(head + Seq::<u8>::empty() =~= head);
    lemma_varint_run(head);
    if k < head.len() {
        assert forall|i: int| 0 <= i < t.len() implies #[trigger] t[i] >= 128 by {
            assert(t[i] == head[i]);
        }
        lemma_varint_run_is(t, t.len());
    } else {
        let part = body.take(k - head.len());
        assert(t =~= head + part);
        lemma_varint_roundtrip(body.len(), part);
    }
}

/// The bytes of a frame are read as that frame.
pub proof fn frame_roundtrip(f: FrameView)
    requires
        frame_fits(f),
    ensures
        parse_frame(frame_bytes(f)) == FrameParse::Complete(f),
{
    let b = frame_bytes(f);
    match frame_body(f) {
        Some(body) => {
            lemma_body_roundtrip(f);
            lemma_sized_complete(frame_opcode(f), body);
            assert(b.skip(1) =~= bytes_field(body));
            assert(b[0] == frame_opcode(f));
            assert(parse_frame(b) == parse_sized(b[0], b.skip(1)));
        },
        None => {
            assert(b[0] == frame_opcode(f));
        },
    }
}

/// A body that is announced with more than [`MAX_STREAMING_PAYLOAD_LEN`] bytes is refused
/// before any of them is read.
pub proof fn oversized_payload_refused(opcode: u8, declared: u64, rest: Seq<u8>)
    requires
        has_body(opcode),
        declared > MAX_STREAMING_PAYLOAD_LEN,
    ensures
        parse_frame(seq![opcode] + varint(declared as nat) + rest) is Bad,
{
    let b = seq![opcode] + varint(declared as nat) + rest;
    assert(b.skip(1) =~= varint(declared as nat) + rest);
    lemma_pow128_values();
    lemma_varint_width(declared as nat, 10, 2);
    lemma_varint_roundtrip(declared as nat, rest);
}

/// While a frame is read, no byte behind it is asked for: any proper beginning of its bytes
/// calls for more, and never for more than the rest of them.
pub proof fn frame_beginning_needs_no_more_than_frame(f: FrameView, k: nat)
    requires
        frame_fits(f),
        k < frame_bytes(f).len(),
    ensures
        parse_frame(frame_bytes(f).take(k as int)) matches FrameParse::Need(n) && 1 <= n
            <= frame_bytes(f).len() - k,
{
    let b = frame_bytes(f).take(k as int);
    if k > 0 {
        let body = frame_body(f)->Some_0;
        lemma_body_roundtrip(f);
        lemma_sized_beginning(frame_opcode(f), body, (k - 1) as nat);
        assert(b.skip(1) =~= bytes_field(body).take(k - 1));
        assert(b[0] == frame_opcode(f));
        assert(parse_frame(b) == parse_sized(b[0], b.skip(1)));
    }
}

} // verus!
