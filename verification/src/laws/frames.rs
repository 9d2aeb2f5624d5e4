//! Laws on the frames of streaming calls: the bytes that are written, and how they are read.
use vstd::prelude::*;
use vstd::utf8::encode_utf8;

use crate::codec::{
    bytes_field, flag_field, lemma_bytes_more, lemma_text_roundtrip, lemma_u32_roundtrip,
    lemma_u64_roundtrip, lemma_varint_more, take_bytes, take_u32, text_field, CodecError,
};
use crate::error::{RpcError, RpcResult};
use crate::laws::pieces::{base_128, lemma_one_number, one_number};
use crate::streaming::{
    classify_eof_or_error, encode_varint_u64, frame_bytes, frame_roundtrip,
    handler_err_to_terminal, lemma_sized_beginning, lemma_sized_complete, open_request_bytes,
    open_request_roundtrip, open_response_bytes, open_response_roundtrip, parse_frame,
    streaming_error_bytes, streaming_error_roundtrip, write_frame, write_length_prefixed,
    write_open_request, write_open_response, write_request_chunk, write_request_end,
    write_response_chunk, write_response_end, write_single_opcode, write_streaming_error,
    FrameParse, FrameReader, FrameView, OpenRequestView, ReadFault, ReadStep, StreamingError,
    StreamingErrorView, StreamingFrame, StreamingOpenRequest, StreamingOpenResponse,
    StreamingOpenStatus,
};
use crate::text::{decimal, hex2};
use crate::varint::{
    lemma_pow128_values, lemma_varint_roundtrip, lemma_varint_run, lemma_varint_run_is,
    lemma_varint_width, varint,
};

verus! {

/// Bytes with their number in front.
pub open spec fn sized(b: Seq<u8>) -> Seq<u8> {
    varint(b.len()) + b
}

/// The UTF-8 bytes of a text with their number in front.
pub open spec fn sized_text(s: Seq<char>) -> Seq<u8> {
    sized(encode_utf8(s))
}

/// The body of an opening: the method, then the number of the call.
pub open spec fn opening_body(method: Seq<char>, id: u64) -> Seq<u8> {
    sized_text(method) + varint(id as nat)
}

/// The body of an acknowledgement: 0, then the number of the call.
pub open spec fn acceptance_body(id: u64) -> Seq<u8> {
    seq![0u8] + varint(id as nat)
}

/// The body of a refusal: 1, the reason, then the number of the call.
pub open spec fn refusal_body(reason: Seq<char>, id: u64) -> Seq<u8> {
    seq![1u8] + sized_text(reason) + varint(id as nat)
}

/// The body of an error: the message, then 1 if it ends the stream and 0 if not.
pub open spec fn error_body(message: Seq<char>, terminal: bool) -> Seq<u8> {
    sized_text(message) + seq![
        if terminal {
            1u8
        } else {
            0u8
        },
    ]
}

/// The bytes of a frame, written out.
pub open spec fn layout(f: StreamingFrame) -> Seq<u8> {
    match f {
        StreamingFrame::OpenRequest(v) => seq![0x10u8] + sized(
            opening_body(v.method_name@, v.request_id),
        ),
        StreamingFrame::OpenResponse(v) => seq![0x11u8] + sized(
            match v.status {
                StreamingOpenStatus::Accepted => acceptance_body(v.request_id),
                StreamingOpenStatus::Refused(s) => refusal_body(s@, v.request_id),
            },
        ),
        StreamingFrame::RequestChunk(b) => seq![0x20u8] + sized(b@),
        StreamingFrame::ResponseChunk(b) => seq![0x21u8] + sized(b@),
        StreamingFrame::RequestEnd => seq![0x30u8],
        StreamingFrame::ResponseEnd => seq![0x31u8],
        StreamingFrame::Error(v) => seq![0x40u8] + sized(error_body(v.message@, v.terminal)),
    }
}

/// Whether two frames say the same: the same kind, and the same texts, bytes and numbers.
pub open spec fn same_frame(f: StreamingFrame, g: StreamingFrame) -> bool {
    match f {
        StreamingFrame::OpenRequest(v) => g matches StreamingFrame::OpenRequest(w)
            && v.method_name@ == w.method_name@ && v.request_id == w.request_id,
        StreamingFrame::OpenResponse(v) => g matches StreamingFrame::OpenResponse(w)
            && v.request_id == w.request_id && match v.status {
            StreamingOpenStatus::Accepted => w.status is Accepted,
            StreamingOpenStatus::Refused(s) => w.status matches StreamingOpenStatus::Refused(t)
                && s@ == t@,
        },
        StreamingFrame::RequestChunk(v) => g matches StreamingFrame::RequestChunk(w) && v@ == w@,
        StreamingFrame::ResponseChunk(v) => g matches StreamingFrame::ResponseChunk(w) && v@ == w@,
        StreamingFrame::RequestEnd => g is RequestEnd,
        StreamingFrame::ResponseEnd => g is ResponseEnd,
        StreamingFrame::Error(v) => g matches StreamingFrame::Error(w) && v.message@ == w.message@
            && v.terminal == w.terminal,
    }
}

/// The view of a frame leaves nothing out: frames with the same view say the same.
pub proof fn views_of_frames_are_faithful(f: StreamingFrame, g: StreamingFrame)
    requires
        f@ == g@,
    ensures
        same_frame(f, g),
{
}

proof fn lemma_tags()
    ensures
        varint(0) == seq![0u8],
        varint(1) == seq![1u8],
{
    assert(varint(0) =~= seq![0u8]);
    assert(varint(1) =~= seq![1u8]);
}

/// The bytes of a frame are those written out.
#[verifier::rlimit(40)]
pub proof fn lemma_layout(f: StreamingFrame)
    ensures
        frame_bytes(f@) == layout(f),
{
    lemma_tags();
    match f {
        StreamingFrame::OpenRequest(v) => {
            assert(open_request_bytes(v@) =~= opening_body(v.method_name@, v.request_id));
        },
        StreamingFrame::OpenResponse(v) => {
            match v.status {
                StreamingOpenStatus::Accepted => {
                    assert(open_response_bytes(v@) =~= acceptance_body(v.request_id));
                },
                StreamingOpenStatus::Refused(s) => {
                    assert(open_response_bytes(v@) =~= refusal_body(s@, v.request_id));
                },
            }
        },
        StreamingFrame::Error(v) => {
            assert(streaming_error_bytes(v@) =~= error_body(v.message@, v.terminal));
        },
        _ => {},
    }
    assert(frame_bytes(f@) =~= layout(f));
}

/// The bytes of a frame of at most 8 MiB are read as that frame.
pub proof fn lemma_layout_read(f: StreamingFrame)
    requires
        layout(f).len() <= 8_388_608,
    ensures
        parse_frame(layout(f)) == FrameParse::Complete(f@),
{
    lemma_layout(f);
    frame_roundtrip(f@);
}

/// Whatever frame is written, its bytes are appended, and nothing else is touched.
pub proof fn frames_are_appended(buf: &mut Vec<u8>, f: &StreamingFrame)
    requires
        call_ensures(write_frame, (buf, f), ()),
    ensures
        final(buf)@ == old(buf)@ + layout(*f),
{
    lemma_layout(*f);
}

/// An opening is `[0x10 | length | method | number]`.
pub proof fn openings_are_appended(buf: &mut Vec<u8>, body: &StreamingOpenRequest)
    requires
        call_ensures(write_open_request, (buf, body), ()),
    ensures
        final(buf)@ == old(buf)@ + (seq![0x10u8] + sized(
            opening_body(body.method_name@, body.request_id),
        )),
{
    lemma_layout(StreamingFrame::OpenRequest(*body));
}

/// An answer to an opening is `[0x11 | length | 0 | number]` where it accepts and
/// `[0x11 | length | 1 | reason | number]` where it refuses.
pub proof fn answers_are_appended(buf: &mut Vec<u8>, body: &StreamingOpenResponse)
    requires
        call_ensures(write_open_response, (buf, body), ()),
    ensures
        final(buf)@ == old(buf)@ + (seq![0x11u8] + sized(
            match body.status {
                StreamingOpenStatus::Accepted => acceptance_body(body.request_id),
                StreamingOpenStatus::Refused(s) => refusal_body(s@, body.request_id),
            },
        )),
{
    lemma_layout(StreamingFrame::OpenResponse(*body));
}

/// A chunk of the client is `[0x20 | length | bytes]`, all of the bytes.
pub proof fn request_chunks_are_appended(buf: &mut Vec<u8>, bytes: &[u8])
    requires
        call_ensures(write_request_chunk, (buf, bytes), ()),
    ensures
        final(buf)@ == old(buf)@ + (seq![0x20u8] + sized(bytes@)),
{
    assert(frame_bytes(FrameView::RequestChunk(bytes@)) =~= seq![0x20u8] + sized(bytes@));
}

/// A chunk of the server is `[0x21 | length | bytes]`, all of the bytes.
pub proof fn response_chunks_are_appended(buf: &mut Vec<u8>, bytes: &[u8])
    requires
        call_ensures(write_response_chunk, (buf, bytes), ()),
    ensures
        final(buf)@ == old(buf)@ + (seq![0x21u8] + sized(bytes@)),
{
    assert(frame_bytes(FrameView::ResponseChunk(bytes@)) =~= seq![0x21u8] + sized(bytes@));
}

/// The client's end is the one byte 0x30.
pub proof fn request_end_is_appended(buf: &mut Vec<u8>)
    requires
        call_ensures(write_request_end, (buf,), ()),
    ensures
        final(buf)@ == old(buf)@ + seq![0x30u8],
{
}

/// The server's end is the one byte 0x31.
pub proof fn response_end_is_appended(buf: &mut Vec<u8>)
    requires
        call_ensures(write_response_end, (buf,), ()),
    ensures
        final(buf)@ == old(buf)@ + seq![0x31u8],
{
}

/// An error is `[0x40 | length | message | 1 or 0]`.
pub proof fn errors_are_appended(buf: &mut Vec<u8>, body: &StreamingError)
    requires
        call_ensures(write_streaming_error, (buf, body), ()),
    ensures
        final(buf)@ == old(buf)@ + (seq![0x40u8] + sized(error_body(body.message@, body.terminal))),
{
    lemma_layout(StreamingFrame::Error(*body));
}

/// A body is appended behind its opcode and its length, a bare opcode as it is, and a number
/// in base 128.
pub proof fn pieces_are_appended(
    first: &mut Vec<u8>,
    second: &mut Vec<u8>,
    third: &mut Vec<u8>,
    opcode: u8,
    body: &[u8],
    value: u64,
    r: RpcResult<()>,
)
    requires
        call_ensures(write_length_prefixed, (first, opcode, body), ()),
        call_ensures(write_single_opcode, (second, opcode), ()),
        call_ensures(encode_varint_u64, (value, third), r),
    ensures
        final(first)@ == old(first)@ + (seq![opcode] + sized(body@)),
        final(second)@ == old(second)@ + seq![opcode],
        final(third)@ == old(third)@ + varint(value as nat),
        r is Ok,
{
}

/// Whatever frame was written, of at most 8 MiB, the reader that is fed its last bytes hands
/// out that frame.
#[verifier::rlimit(40)]
pub proof fn written_frames_are_read(
    f: StreamingFrame,
    reader: FrameReader,
    bytes: &[u8],
    step: ReadStep,
)
    requires
        call_ensures(FrameReader::feed, (reader, bytes), step),
        reader.seen() + bytes@ == layout(f),
        layout(f).len() <= 8_388_608,
    ensures
        step matches ReadStep::Frame(g) && same_frame(f, g),
{
    lemma_layout_read(f);
    assert(parse_frame(reader.seen() + bytes@) == FrameParse::Complete(f@));
    if let ReadStep::Frame(g) = step {
        views_of_frames_are_faithful(f, g);
    }
}

/// A chunk of any length up to 8 MiB is read byte for byte.
pub proof fn chunks_are_read_whole(
    opcode: u8,
    chunk: Seq<u8>,
    reader: FrameReader,
    bytes: &[u8],
    step: ReadStep,
)
    requires
        call_ensures(FrameReader::feed, (reader, bytes), step),
        opcode == 0x20 || opcode == 0x21,
        reader.seen() + bytes@ == seq![opcode] + sized(chunk),
        chunk.len() <= 8_388_608,
    ensures
        step matches ReadStep::Frame(g) && (if opcode == 0x20 {
            g matches StreamingFrame::RequestChunk(v) && v@ == chunk
        } else {
            g matches StreamingFrame::ResponseChunk(v) && v@ == chunk
        }),
{
    let b = seq![opcode] + sized(chunk);
    assert(b.skip(1) =~= bytes_field(chunk));
    lemma_sized_complete(opcode, chunk);
}

/// A frame whose body is an opening, an answer or an error is read as what its body is read
/// as, and refused with the same error if the body is.
#[verifier::rlimit(40)]
pub proof fn bodies_decide_frames(
    opcode: u8,
    body: &[u8],
    reader: FrameReader,
    bytes: &[u8],
    step: ReadStep,
    opening: Result<StreamingOpenRequest, CodecError>,
    answer: Result<StreamingOpenResponse, CodecError>,
    error: Result<StreamingError, CodecError>,
)
    requires
        call_ensures(FrameReader::feed, (reader, bytes), step),
        call_ensures(StreamingOpenRequest::from_bytes, (body,), opening),
        call_ensures(StreamingOpenResponse::from_bytes, (body,), answer),
        call_ensures(StreamingError::from_bytes, (body,), error),
        reader.seen() + bytes@ == seq![opcode] + sized(body@),
        body@.len() <= 8_388_608,
    ensures
        opcode == 0x10 ==> match opening {
            Ok(v) => step matches ReadStep::Frame(g) && same_frame(
                StreamingFrame::OpenRequest(v),
                g,
            ),
            Err(e) => step matches ReadStep::Failed(RpcError::Codec(c)) && c == e,
        },
        opcode == 0x11 ==> match answer {
            Ok(v) => step matches ReadStep::Frame(g) && same_frame(
                StreamingFrame::OpenResponse(v),
                g,
            ),
            Err(e) => step matches ReadStep::Failed(RpcError::Codec(c)) && c == e,
        },
        opcode == 0x40 ==> match error {
            Ok(v) => step matches ReadStep::Frame(g) && same_frame(StreamingFrame::Error(v), g),
            Err(e) => step matches ReadStep::Failed(RpcError::Codec(c)) && c == e,
        },
{
    let b = seq![opcode] + sized(body@);
    assert(b.skip(1) =~= bytes_field(body@));
    lemma_sized_complete(opcode, body@);
}

/// A reader starts with nothing read and asks for one byte; what it asks for it may be fed.
pub proof fn reading_starts_with_one_byte(
    reader: FrameReader,
    other: FrameReader,
    wanted: usize,
    bytes: &[u8],
)
    requires
        call_ensures(FrameReader::new, (), reader),
        call_ensures(FrameReader::wanted, (&other,), wanted),
    ensures
        reader.seen() == Seq::<u8>::empty(),
        bytes@.len() == 1 ==> call_requires(FrameReader::feed, (reader, bytes)),
        bytes@.len() == wanted ==> call_requires(FrameReader::feed, (other, bytes)),
{
}

/// While a frame is read, something is asked for, and never more than the rest of the frame:
/// no byte behind it is taken.
pub proof fn reader_asks_for_the_frame_alone(
    opcode: u8,
    body: Seq<u8>,
    k: nat,
    reader: FrameReader,
    wanted: usize,
)
    requires
        call_ensures(FrameReader::wanted, (&reader,), wanted),
        opcode == 0x10 || opcode == 0x11 || opcode == 0x20 || opcode == 0x21 || opcode == 0x40,
        body.len() <= 8_388_608,
        k < (seq![opcode] + sized(body)).len(),
        reader.seen() == (seq![opcode] + sized(body)).take(k as int),
    ensures
        1 <= wanted <= (seq![opcode] + sized(body)).len() - k,
{
    let b = (seq![opcode] + sized(body)).take(k as int);
    if k > 0 {
        lemma_sized_beginning(opcode, body, (k - 1) as nat);
        assert(b.skip(1) =~= bytes_field(body).take(k - 1));
        assert(b[0] == opcode);
    }
}

/// What a reader asks for: one byte until the length is read, then the rest of the body.
#[verifier::rlimit(40)]
pub proof fn readers_ask_for_what_is_missing(
    opcode: u8,
    digits: Seq<u8>,
    part: Seq<u8>,
    reader: FrameReader,
    wanted: usize,
)
    requires
        call_ensures(FrameReader::wanted, (&reader,), wanted),
        opcode == 0x10 || opcode == 0x11 || opcode == 0x20 || opcode == 0x21 || opcode == 0x40,
    ensures
        reader.seen().len() == 0 ==> wanted == 1,
        reader.seen() == seq![opcode] + digits && digits.len() < 10 && (forall|i: int|
            0 <= i < digits.len() ==> #[trigger] digits[i] >= 128) ==> wanted == 1,
        reader.seen() == seq![opcode] + (digits + part) && one_number(digits) && digits.len() <= 10
            && part.len() < base_128(digits) % 0x1_0000_0000_0000_0000 <= 8_388_608 ==> wanted
            == base_128(digits) % 0x1_0000_0000_0000_0000 - part.len(),
{
    if reader.seen() == seq![opcode] + digits && digits.len() < 10 && (forall|i: int|
        0 <= i < digits.len() ==> #[trigger] digits[i] >= 128) {
        assert((seq![opcode] + digits).skip(1) =~= digits);
        lemma_varint_run_is(digits, digits.len());
    }
    if reader.seen() == seq![opcode] + (digits + part) && one_number(digits) {
        assert((seq![opcode] + (digits + part)).skip(1) =~= digits + part);
        lemma_one_number(digits, part);
    }
}

/// A reader that goes on has read what it had and what it was fed.
pub proof fn readers_remember(reader: FrameReader, bytes: &[u8], step: ReadStep)
    requires
        call_ensures(FrameReader::feed, (reader, bytes), step),
    ensures
        step matches ReadStep::More(next) ==> next.seen() == reader.seen() + bytes@,
{
}

/// A reader that is not done has read what it had and what it was fed.
pub proof fn readers_keep_what_they_read(
    reader: FrameReader,
    bytes: &[u8],
    step: ReadStep,
    opcode: u8,
    body: Seq<u8>,
)
    requires
        call_ensures(FrameReader::feed, (reader, bytes), step),
        opcode == 0x10 || opcode == 0x11 || opcode == 0x20 || opcode == 0x21 || opcode == 0x40,
        body.len() <= 8_388_608,
        (reader.seen() + bytes@).len() < (seq![opcode] + sized(body)).len(),
        reader.seen() + bytes@ == (seq![opcode] + sized(body)).take(
            (reader.seen() + bytes@).len() as int,
        ),
    ensures
        step matches ReadStep::More(next) && next.seen() == reader.seen() + bytes@,
{
    let b = reader.seen() + bytes@;
    let k = b.len();
    if k > 0 {
        lemma_sized_beginning(opcode, body, (k - 1) as nat);
        assert(b.skip(1) =~= bytes_field(body).take(k - 1));
        assert(b[0] == (seq![opcode] + sized(body))[0]);
    }
}

/// The one-byte frames are read from their byte, and a byte that begins no frame is refused.
pub proof fn first_bytes_decide(reader: FrameReader, bytes: &[u8], step: ReadStep, opcode: u8)
    requires
        call_ensures(FrameReader::feed, (reader, bytes), step),
        reader.seen() + bytes@ == seq![opcode],
    ensures
        opcode == 0x30 ==> step matches ReadStep::Frame(StreamingFrame::RequestEnd),
        opcode == 0x31 ==> step matches ReadStep::Frame(StreamingFrame::ResponseEnd),
        opcode == 0x10 || opcode == 0x11 || opcode == 0x20 || opcode == 0x21 || opcode == 0x40
            ==> step is More,
        !(opcode == 0x10 || opcode == 0x11 || opcode == 0x20 || opcode == 0x21 || opcode == 0x30
            || opcode == 0x31 || opcode == 0x40)
            ==> (step matches ReadStep::Failed(RpcError::MalformedFrame(s)) && s@
            == "unexpected streaming opcode 0x"@ + hex2(opcode)),
{
    let b = seq![opcode];
    assert(b.skip(1) =~= seq![]);
}

/// A body that is announced with more than 8 MiB is refused before any of it is read.
#[verifier::rlimit(40)]
pub proof fn announced_excess_is_refused(
    reader: FrameReader,
    bytes: &[u8],
    step: ReadStep,
    opcode: u8,
    digits: Seq<u8>,
    declared: nat,
)
    requires
        call_ensures(FrameReader::feed, (reader, bytes), step),
        opcode == 0x10 || opcode == 0x11 || opcode == 0x20 || opcode == 0x21 || opcode == 0x40,
        one_number(digits),
        digits.len() <= 10,
        declared == base_128(digits) % 0x1_0000_0000_0000_0000,
        declared > 8_388_608,
        reader.seen() + bytes@ == seq![opcode] + digits,
    ensures
        step matches ReadStep::Failed(RpcError::MalformedFrame(s)) && (declared <= usize::MAX
            ==> s@ == "streaming payload length "@ + decimal(declared) + " exceeds maximum "@
            + decimal(8_388_608)),
{
    let b = seq![opcode] + digits;
    assert(b.skip(1) =~= digits + seq![]);
    lemma_one_number(digits, seq![]);
}

/// A length that goes on for more than ten bytes is refused.
#[verifier::rlimit(40)]
pub proof fn endless_lengths_are_refused(
    reader: FrameReader,
    bytes: &[u8],
    step: ReadStep,
    opcode: u8,
    digits: Seq<u8>,
)
    requires
        call_ensures(FrameReader::feed, (reader, bytes), step),
        opcode == 0x10 || opcode == 0x11 || opcode == 0x20 || opcode == 0x21 || opcode == 0x40,
        digits.len() == 10,
        forall|i: int| 0 <= i < 10 ==> #[trigger] digits[i] >= 128,
        reader.seen() + bytes@ == seq![opcode] + digits,
    ensures
        step matches ReadStep::Failed(RpcError::MalformedFrame(s)) && s@
            == "streaming varint > 10 bytes"@,
{
    let b = seq![opcode] + digits;
    assert(b.skip(1) =~= digits);
    lemma_varint_run_is(digits, 10);
}

/// An opening is written as its method and its number, and read back from these bytes,
/// whatever follows them.
pub proof fn openings_read_back(
    v: &StreamingOpenRequest,
    b: Vec<u8>,
    input: &[u8],
    rest: Seq<u8>,
    r: Result<StreamingOpenRequest, CodecError>,
)
    requires
        call_ensures(StreamingOpenRequest::to_bytes, (v,), b),
        call_ensures(StreamingOpenRequest::from_bytes, (input,), r),
        input@ == b@ + rest,
        encode_utf8(v.method_name@).len() <= usize::MAX,
    ensures
        b@ == opening_body(v.method_name@, v.request_id),
        r matches Ok(w) && w.method_name@ == v.method_name@ && w.request_id == v.request_id,
{
    open_request_roundtrip(v@, rest);
    assert(b@ =~= opening_body(v.method_name@, v.request_id));
}

/// An answer to an opening is written as its verdict and its number, and read back from
/// these bytes, whatever follows them.
pub proof fn answers_read_back(
    v: &StreamingOpenResponse,
    b: Vec<u8>,
    input: &[u8],
    rest: Seq<u8>,
    r: Result<StreamingOpenResponse, CodecError>,
)
    requires
        call_ensures(StreamingOpenResponse::to_bytes, (v,), b),
        call_ensures(StreamingOpenResponse::from_bytes, (input,), r),
        input@ == b@ + rest,
        v.status matches StreamingOpenStatus::Refused(s) ==> encode_utf8(s@).len() <= usize::MAX,
    ensures
        b@ == (match v.status {
            StreamingOpenStatus::Accepted => acceptance_body(v.request_id),
            StreamingOpenStatus::Refused(s) => refusal_body(s@, v.request_id),
        }),
        r matches Ok(w) && same_frame(
            StreamingFrame::OpenResponse(*v),
            StreamingFrame::OpenResponse(w),
        ),
{
    open_response_roundtrip(v@, rest);
    lemma_tags();
    match v.status {
        StreamingOpenStatus::Accepted => {
            assert(b@ =~= acceptance_body(v.request_id));
        },
        StreamingOpenStatus::Refused(s) => {
            assert(b@ =~= refusal_body(s@, v.request_id));
        },
    }
}

/// An error is written as its message and its flag, and read back from these bytes, whatever
/// follows them.
pub proof fn errors_read_back(
    v: &StreamingError,
    b: Vec<u8>,
    input: &[u8],
    rest: Seq<u8>,
    r: Result<StreamingError, CodecError>,
)
    requires
        call_ensures(StreamingError::to_bytes, (v,), b),
        call_ensures(StreamingError::from_bytes, (input,), r),
        input@ == b@ + rest,
        encode_utf8(v.message@).len() <= usize::MAX,
    ensures
        b@ == error_body(v.message@, v.terminal),
        r matches Ok(w) && w.message@ == v.message@ && w.terminal == v.terminal,
{
    streaming_error_roundtrip(v@, rest);
    assert(b@ =~= error_body(v.message@, v.terminal));
}

/// An opening that is cut short is refused.
pub proof fn cut_openings_are_refused(
    v: OpenRequestView,
    k: nat,
    input: &[u8],
    r: Result<StreamingOpenRequest, CodecError>,
)
    requires
        call_ensures(StreamingOpenRequest::from_bytes, (input,), r),
        encode_utf8(v.method_name).len() <= usize::MAX,
        k < opening_body(v.method_name, v.request_id).len(),
        input@ == opening_body(v.method_name, v.request_id).take(k as int),
    ensures
        r is Err,
{
    let whole = opening_body(v.method_name, v.request_id);
    let (cut, more) = (whole.take(k as int), whole.skip(k as int));
    assert(whole =~= cut + more);
    assert(whole =~= text_field(v.method_name) + (varint(v.request_id as nat) + seq![]));
    lemma_text_roundtrip(v.method_name, varint(v.request_id as nat) + seq![]);
    lemma_u64_roundtrip(v.request_id, seq![]);
    lemma_bytes_more(cut, more);
    if let Ok((_, rest)) = take_bytes(cut) {
        lemma_varint_more(rest, 10, 1, more);
    }
}

/// An error whose flag is missing is refused.
pub proof fn cut_errors_are_refused(
    v: StreamingErrorView,
    k: nat,
    input: &[u8],
    r: Result<StreamingError, CodecError>,
)
    requires
        call_ensures(StreamingError::from_bytes, (input,), r),
        encode_utf8(v.message).len() <= usize::MAX,
        k < error_body(v.message, v.terminal).len(),
        input@ == error_body(v.message, v.terminal).take(k as int),
    ensures
        r is Err,
{
    let whole = error_body(v.message, v.terminal);
    let (cut, more) = (whole.take(k as int), whole.skip(k as int));
    assert(whole =~= cut + more);
    let flag = flag_field(v.terminal);
    assert(whole =~= text_field(v.message) + (flag + seq![]));
    lemma_text_roundtrip(v.message, flag + seq![]);
    lemma_bytes_more(cut, more);
}

/// The error that ends a stream because of `e` carries the text of `e`.
pub proof fn terminal_errors_carry_the_text(e: &RpcError, text: String, r: StreamingError)
    requires
        call_ensures(handler_err_to_terminal, (e,), r),
        call_ensures(RpcError::to_string, (e,), text),
    ensures
        r.message@ == text@,
        r.terminal,
{
}

/// A failed read before the first byte of a frame is a clean end if the peer finished the
/// stream there, and a failed read of the transport in all other cases.
pub proof fn clean_ends(reader: FrameReader, fault: ReadFault, r: RpcResult<()>, s: RpcResult<()>)
    requires
        call_ensures(classify_eof_or_error, (fault,), r),
        call_ensures(FrameReader::read_failed, (&reader, fault), s),
        reader.seen() == Seq::<u8>::empty(),
    ensures
        match fault {
            ReadFault::FinishedEarly(n) => if n == 0 {
                r is Ok
            } else {
                r matches Err(RpcError::TransportRead { reason }) && reason@
                    == "partial frame: read "@ + decimal(n as nat) + " bytes before EOF"@
            },
            ReadFault::ClosedStream => r matches Err(RpcError::TransportRead { reason })
                && reason@ == "closed stream"@,
            ReadFault::Failed(text) => r matches Err(RpcError::TransportRead { reason })
                && reason@ == text@,
        },
        r is Ok <==> s is Ok,
        r matches Err(e) ==> s matches Err(g) && e@ == g@,
{
}

/// A failed read inside a frame is always an error, and says whether the frame broke off in
/// its length or in its body.
pub proof fn broken_frames_are_errors(
    reader: FrameReader,
    fault: ReadFault,
    text: String,
    r: RpcResult<()>,
    opcode: u8,
    digits: Seq<u8>,
    part: Seq<u8>,
)
    requires
        call_ensures(FrameReader::read_failed, (&reader, fault), r),
        call_ensures(ReadFault::to_string, (&fault,), text),
    ensures
        reader.seen() == seq![opcode] + digits && (forall|i: int|
            0 <= i < digits.len() ==> #[trigger] digits[i] >= 128) ==> (if fault is FinishedEarly {
            r matches Err(RpcError::MalformedFrame(s)) && s@ == "streaming varint: "@ + text@
        } else {
            r matches Err(RpcError::TransportRead { reason }) && reason@ == "streaming varint: "@
                + text@
        }),
        reader.seen() == seq![opcode] + (digits + part) && one_number(digits) ==> (r matches Err(
            RpcError::TransportRead { reason },
        ) && reason@ == "streaming payload body: "@ + text@),
{
    if reader.seen() == seq![opcode] + digits && (forall|i: int|
        0 <= i < digits.len() ==> #[trigger] digits[i] >= 128) {
        assert((seq![opcode] + digits).skip(1) =~= digits);
        lemma_varint_run_is(digits, digits.len());
    }
    if reader.seen() == seq![opcode] + (digits + part) && one_number(digits) {
        assert((seq![opcode] + (digits + part)).skip(1) =~= digits + part);
        lemma_one_number(digits, part);
    }
}

/// How a failed read reads.
pub proof fn read_faults_read(fault: &ReadFault, r: String)
    requires
        call_ensures(ReadFault::to_string, (fault,), r),
    ensures
        r@ == (match *fault {
            ReadFault::FinishedEarly(n) => "stream finished early ("@ + decimal(n as nat)
                + " bytes read)"@,
            ReadFault::ClosedStream => "closed stream"@,
            ReadFault::Failed(text) => text@,
        }),
{
}

/// An answer whose verdict is neither 0 nor 1 is refused.
pub proof fn unknown_verdicts_are_refused(
    tag: u32,
    rest: Seq<u8>,
    input: &[u8],
    r: Result<StreamingOpenResponse, CodecError>,
)
    requires
        tag > 1,
        input@ == varint(tag as nat) + rest,
        call_ensures(StreamingOpenResponse::from_bytes, (input,), r),
    ensures
        r == Err::<StreamingOpenResponse, CodecError>(CodecError::SerdeDeCustom),
{
    lemma_u32_roundtrip(tag, rest);
}

/// An answer that is cut short is refused.
pub proof fn cut_answers_are_refused(
    v: &StreamingOpenResponse,
    b: Vec<u8>,
    k: nat,
    input: &[u8],
    r: Result<StreamingOpenResponse, CodecError>,
)
    requires
        call_ensures(StreamingOpenResponse::to_bytes, (v,), b),
        v.status matches StreamingOpenStatus::Refused(s) ==> encode_utf8(s@).len() <= usize::MAX,
        k < b@.len(),
        input@ == b@.take(k as int),
        call_ensures(StreamingOpenResponse::from_bytes, (input,), r),
    ensures
        r is Err,
{
    let whole = b@;
    let id = varint(v.request_id as nat);
    let (cut, more) = (whole.take(k as int), whole.skip(k as int));
    assert(whole =~= cut + more);
    lemma_varint_more(cut, 5, 15, more);
    lemma_u64_roundtrip(v.request_id, seq![]);
    match v.status {
        StreamingOpenStatus::Accepted => {
            assert(whole =~= varint(0) + (id + seq![]));
            lemma_u32_roundtrip(0, id + seq![]);
        },
        StreamingOpenStatus::Refused(s) => {
            assert(whole =~= varint(1) + (text_field(s@) + (id + seq![])));
            lemma_u32_roundtrip(1, text_field(s@) + (id + seq![]));
            lemma_text_roundtrip(s@, id + seq![]);
        },
    }
    if let Ok((_, rest)) = take_u32(cut) {
        lemma_varint_more(rest, 10, 1, more);
        lemma_bytes_more(rest, more);
        if let Ok((_, rest)) = take_bytes(rest) {
            lemma_varint_more(rest, 10, 1, more);
        }
    }
}

/// An error whose flag is neither 0 nor 1 is refused.
pub proof fn bad_flags_are_refused(
    message: Seq<char>,
    flag: u8,
    rest: Seq<u8>,
    input: &[u8],
    r: Result<StreamingError, CodecError>,
)
    requires
        encode_utf8(message).len() <= usize::MAX,
        flag > 1,
        input@ == sized_text(message) + (seq![flag] + rest),
        call_ensures(StreamingError::from_bytes, (input,), r),
    ensures
        r == Err::<StreamingError, CodecError>(CodecError::DeserializeBadBool),
{
    assert(sized_text(message) =~= text_field(message));
    lemma_text_roundtrip(message, seq![flag] + rest);
    assert((seq![flag] + rest)[0] == flag);
}

/// A chunk is read whole also where its length is written with more digits than it needs, of
/// which 64 bits count.
#[verifier::rlimit(40)]
pub proof fn padded_lengths_are_read(
    opcode: u8,
    digits: Seq<u8>,
    chunk: Seq<u8>,
    reader: FrameReader,
    bytes: &[u8],
    step: ReadStep,
)
    requires
        call_ensures(FrameReader::feed, (reader, bytes), step),
        opcode == 0x20 || opcode == 0x21,
        one_number(digits),
        digits.len() <= 10,
        base_128(digits) % 0x1_0000_0000_0000_0000 == chunk.len(),
        reader.seen() + bytes@ == seq![opcode] + (digits + chunk),
        chunk.len() <= 8_388_608,
    ensures
        step matches ReadStep::Frame(g) && (if opcode == 0x20 {
            g matches StreamingFrame::RequestChunk(v) && v@ == chunk
        } else {
            g matches StreamingFrame::ResponseChunk(v) && v@ == chunk
        }),
{
    let t = digits + chunk;
    assert((seq![opcode] + t).skip(1) =~= t);
    lemma_one_number(digits, chunk);
    assert(chunk.take(chunk.len() as int) =~= chunk);
}

/// Every frame can be written, and every body read.
pub proof fn frames_take_every_input(
    buf: &mut Vec<u8>,
    f: &StreamingFrame,
    b: &[u8],
    opening: &StreamingOpenRequest,
    answer: &StreamingOpenResponse,
    error: &StreamingError,
    fault: ReadFault,
    reader: &FrameReader,
)
    ensures
        call_requires(write_frame, (buf, f)),
        call_requires(write_request_chunk, (buf, b)),
        call_requires(write_response_chunk, (buf, b)),
        call_requires(write_open_request, (buf, opening)),
        call_requires(write_open_response, (buf, answer)),
        call_requires(write_streaming_error, (buf, error)),
        call_requires(StreamingOpenRequest::from_bytes, (b,)),
        call_requires(StreamingOpenResponse::from_bytes, (b,)),
        call_requires(StreamingError::from_bytes, (b,)),
        call_requires(classify_eof_or_error, (fault,)),
        call_requires(FrameReader::wanted, (reader,)),
        call_requires(FrameReader::read_failed, (reader, fault)),
{
}

} // verus!
