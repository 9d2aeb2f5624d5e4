//! Frame opcodes, size limits, and the prefixes that frames begin with.
//!
//! ```text
//! UNARY
//!   request     [0x00 | varint(name length) | method name | request bytes]
//!   response    [0x01 | response bytes]
//!   error       [0x02 | error envelope]
//!
//! STREAMING, on one bidirectional stream
//!   open        [0x10 | varint(length) | open request]
//!   open ack    [0x11 | varint(length) | open response]
//!   req chunk   [0x20 | varint(length) | bytes]
//!   resp chunk  [0x21 | varint(length) | bytes]
//!   req end     [0x30]
//!   resp end    [0x31]
//!   error       [0x40 | varint(length) | streaming error]
//!
//! DATAGRAM
//!   [varint(stream-id) | payload]
//! ```
use vstd::prelude::*;
use vstd::utf8::{decode_utf8, encode_utf8, encode_utf8_decode_utf8, encode_utf8_valid_utf8, valid_utf8};

use crate::codec::text_field;
use crate::error::{RpcError, RpcErrorView, RpcResult};
use crate::text::{decimal, decimal_text, join2, join3};
use crate::varint::{
    lemma_pow128_values, lemma_varint_roundtrip, lemma_varint_run, lemma_varint_width, varint,
    varint_run, varint_value,
};

verus! {

/// Upper bound on the body of one streaming frame, in bytes.
pub const MAX_STREAMING_PAYLOAD_LEN: usize = 8 * 1024 * 1024;

/// Upper bound on a method name, in bytes.
pub const MAX_METHOD_NAME_LEN: usize = 4096;

/// Unary request.
pub const OPCODE_UNARY_REQUEST: u8 = 0x00;

/// Unary success response.
pub const OPCODE_UNARY_RESPONSE: u8 = 0x01;

/// Unary error response.
pub const OPCODE_UNARY_ERROR: u8 = 0x02;

/// Opening of a streaming call, sent by the client.
pub const OPCODE_STREAMING_OPEN_REQUEST: u8 = 0x10;

/// Answer to the opening of a streaming call.
pub const OPCODE_STREAMING_OPEN_RESPONSE: u8 = 0x11;

/// One chunk from the client.
pub const OPCODE_STREAMING_REQUEST_CHUNK: u8 = 0x20;

/// One chunk from the server.
pub const OPCODE_STREAMING_RESPONSE_CHUNK: u8 = 0x21;

/// The client sends no more chunks.
pub const OPCODE_STREAMING_REQUEST_END: u8 = 0x30;

/// The server sends no more chunks.
pub const OPCODE_STREAMING_RESPONSE_END: u8 = 0x31;

/// An error inside a stream, from either side.
pub const OPCODE_STREAMING_ERROR: u8 = 0x40;

/// Why no base-128 integer could be read from the front of a buffer.
#[derive(Clone, Copy, Debug, PartialEq, Eq, Structural)]
pub enum VarintFault {
    /// The buffer ended before the integer did.
    Truncated,
    /// The integer does not fit 64 bits.
    Overflow,
}

/// How a fault reads inside an error message.
pub open spec fn fault_text(f: VarintFault) -> Seq<char> {
    match f {
        VarintFault::Truncated => "failed to fill whole buffer"@,
        VarintFault::Overflow => "The number being read is larger than can be represented"@,
    }
}

impl VarintFault {
    /// Renders the fault as it reads inside an error message.
    pub fn to_string(&self) -> (r: String)
        ensures
            r@ == fault_text(*self),
    {
        match *self {
            VarintFault::Truncated => "failed to fill whole buffer".to_owned(),
            VarintFault::Overflow => {
                "The number being read is larger than can be represented".to_owned()
            },
        }
    }
}

/// Reading a 64-bit integer from the front of a buffer.
pub open spec fn take_leb128(b: Seq<u8>) -> Result<(u64, Seq<u8>), VarintFault> {
    let n = varint_run(b);
    if n == b.len() {
        Err(VarintFault::Truncated)
    } else if n > 9 || (n == 9 && b[9] > 1) {
        Err(VarintFault::Overflow)
    } else {
        Ok((varint_value(b, n + 1) as u64, b.skip((n + 1) as int)))
    }
}

/// `leb128::write::unsigned` on a vector: appends the shortest base-128 encoding of
/// the number. Writing to a growing vector has no failure case.
#[verifier::external_body]
fn leb128_write(buf: &mut Vec<u8>, v: u64)
    ensures
        final(buf)@ == old(buf)@ + varint(v as nat),
{
    leb128::write::unsigned(buf, v).expect("a vector takes every byte");
}

/// `leb128::read::unsigned` on a slice: reads up to the first byte without the high
/// bit. Without such a byte it reports the end of the input; an integer of more than
/// 64 bits it reports as an overflow.
#[verifier::external_body]
fn leb128_read(b: &[u8]) -> (r: Result<(u64, &[u8]), VarintFault>)
    ensures
        match r {
            Ok((v, rest)) => take_leb128(b@) == Ok::<(u64, Seq<u8>), VarintFault>((v, rest@)),
            Err(f) => take_leb128(b@) == Err::<(u64, Seq<u8>), VarintFault>(f),
        },
{
    let mut rest = b;
    match leb128::read::unsigned(&mut rest) {
        Ok(v) => Ok((v, rest)),
        Err(leb128::read::Error::IoError(_)) => Err(VarintFault::Truncated),
        Err(leb128::read::Error::Overflow) => Err(VarintFault::Overflow),
    }
}

/// What the standard library says of bytes that are not UTF-8.
pub uninterp spec fn utf8_error_text(b: Seq<u8>) -> Seq<char>;

/// `std::str::from_utf8`: the text when the bytes are UTF-8, else the message of its
/// error. Of the message only that it is a function of the bytes is claimed.
#[verifier::external_body]
fn utf8_text(b: &[u8]) -> (r: Result<&str, String>)
    ensures
        r is Ok <==> valid_utf8(b@),
        r matches Ok(s) ==> s@ == decode_utf8(b@),
        r matches Err(e) ==> e@ == utf8_error_text(b@),
{
    match std::str::from_utf8(b) {
        Ok(s) => Ok(s),
        Err(e) => Err(e.to_string()),
    }
}

/// Appends a 64-bit integer.
pub fn put_varint(buf: &mut Vec<u8>, v: u64)
    ensures
        final(buf)@ == old(buf)@ + varint(v as nat),
{
    leb128_write(buf, v)
}

/// Reads a 64-bit integer from the front of a buffer.
pub fn get_varint(b: &[u8]) -> (r: Result<(u64, &[u8]), VarintFault>)
    ensures
        match r {
            Ok((v, rest)) => take_leb128(b@) == Ok::<(u64, Seq<u8>), VarintFault>((v, rest@)),
            Err(f) => take_leb128(b@) == Err::<(u64, Seq<u8>), VarintFault>(f),
        },
{
    leb128_read(b)
}

/// Appends a method name, prefixed by its length in bytes.
pub fn encode_method_name(name: &str, buf: &mut Vec<u8>) -> (r: RpcResult<()>)
    ensures
        r is Ok,
        final(buf)@ == old(buf)@ + text_field(name@),
{
    let bytes = name.as_bytes();
    leb128_write(buf, bytes.len() as u64);
    buf.extend_from_slice(bytes);
    assert(buf@ =~= old(buf)@ + text_field(name@));
    Ok(())
}

/// What the front of `b` says as a length-prefixed method name: the name and the bytes
/// behind it, or the error.
pub open spec fn parse_method_name(b: Seq<u8>) -> Result<(Seq<char>, Seq<u8>), RpcErrorView> {
    match take_leb128(b) {
        Err(f) => Err(RpcErrorView::MalformedFrame("leb128 read: "@ + fault_text(f))),
        Ok((n, rest)) => if n > usize::MAX {
            Err(
                RpcErrorView::MalformedFrame(
                    "name-length overflow: out of range integral type conversion attempted"@,
                ),
            )
        } else if n > MAX_METHOD_NAME_LEN {
            Err(
                RpcErrorView::MalformedFrame(
                    "method-name length "@ + decimal(n as nat) + " exceeds maximum "@ + decimal(
                        MAX_METHOD_NAME_LEN as nat,
                    ),
                ),
            )
        } else if n > rest.len() {
            Err(RpcErrorView::MalformedFrame("method-name length exceeds buffer"@))
        } else if !valid_utf8(rest.take(n as int)) {
            Err(
                RpcErrorView::MalformedFrame(
                    "non-UTF-8 method-name: "@ + utf8_error_text(rest.take(n as int)),
                ),
            )
        } else {
            Ok((decode_utf8(rest.take(n as int)), rest.skip(n as int)))
        },
    }
}

/// Reads a method name, and hands back the bytes behind it.
pub fn decode_method_name(input: &[u8]) -> (r: RpcResult<(&str, &[u8])>)
    ensures
        match r {
            Ok((name, rest)) => parse_method_name(input@) == Ok::<
                (Seq<char>, Seq<u8>),
                RpcErrorView,
            >((name@, rest@)),
            Err(e) => parse_method_name(input@) == Err::<(Seq<char>, Seq<u8>), RpcErrorView>(e@),
        },
{
    let (declared, rest) = match leb128_read(input) {
        Ok(taken) => taken,
        Err(f) => {
            return Err(
                RpcError::MalformedFrame(join2("leb128 read: ", f.to_string().as_str())),
            );
        },
    };
    if declared > usize::MAX as u64 {
        return Err(
            RpcError::MalformedFrame(
                "name-length overflow: out of range integral type conversion attempted".to_owned(),
            ),
        );
    }
    let name_len: usize = declared as usize;
    if name_len > MAX_METHOD_NAME_LEN {
        let head = join3(
            "method-name length ",
            decimal_text(declared).as_str(),
            " exceeds maximum ",
        );
        return Err(
            RpcError::MalformedFrame(
                join2(head.as_str(), decimal_text(MAX_METHOD_NAME_LEN as u64).as_str()),
            ),
        );
    }
    if name_len > rest.len() {
        return Err(RpcError::MalformedFrame("method-name length exceeds buffer".to_owned()));
    }
    let name_bytes = vstd::slice::slice_subrange(rest, 0, name_len);
    let tail = vstd::slice::slice_subrange(rest, name_len, rest.len());
    assert(name_bytes@ =~= rest@.take(name_len as int));
    assert(tail@ =~= rest@.skip(name_len as int));
    match utf8_text(name_bytes) {
        Ok(name) => Ok((name, tail)),
        Err(e) => Err(RpcError::MalformedFrame(join2("non-UTF-8 method-name: ", e.as_str()))),
    }
}

/// Appends a datagram stream-id.
pub fn encode_stream_id(stream_id: u64, buf: &mut Vec<u8>) -> (r: RpcResult<()>)
    ensures
        r is Ok,
        final(buf)@ == old(buf)@ + varint(stream_id as nat),
{
    leb128_write(buf, stream_id);
    Ok(())
}

/// What the front of `b` says as a stream-id: the id and the bytes behind it, or the
/// error.
pub open spec fn parse_stream_id(b: Seq<u8>) -> Result<(u64, Seq<u8>), RpcErrorView> {
    match take_leb128(b) {
        Err(f) => Err(RpcErrorView::MalformedFrame("leb128 read stream-id: "@ + fault_text(f))),
        Ok(taken) => Ok(taken),
    }
}

/// Reads a datagram stream-id, and hands back the bytes behind it.
pub fn decode_stream_id(input: &[u8]) -> (r: RpcResult<(u64, &[u8])>)
    ensures
        match r {
            Ok((id, rest)) => parse_stream_id(input@) == Ok::<(u64, Seq<u8>), RpcErrorView>(
                (id, rest@),
            ),
            Err(e) => parse_stream_id(input@) == Err::<(u64, Seq<u8>), RpcErrorView>(e@),
        },
{
    match leb128_read(input) {
        Ok(taken) => Ok(taken),
        Err(f) => Err(
            RpcError::MalformedFrame(join2("leb128 read stream-id: ", f.to_string().as_str())),
        ),
    }
}

/// A 64-bit integer reads back, whatever follows it.
pub proof fn lemma_leb128_roundtrip(v: u64, rest: Seq<u8>)
    ensures
        take_leb128(varint(v as nat) + rest) == Ok::<(u64, Seq<u8>), VarintFault>((v, rest)),
{
    lemma_pow128_values();
    lemma_varint_width(v as nat, 10, 2);
    lemma_varint_roundtrip(v as nat, rest);
    let b = varint(v as nat) + rest;
    assert(b[varint_run(b) as int] == varint(v as nat)[varint_run(b) as int]);
}

/// A stream-id that [`encode_stream_id`] wrote is what [`decode_stream_id`] reads, and
/// the payload behind it comes back untouched.
pub proof fn stream_id_roundtrip(id: u64, payload: Seq<u8>)
    ensures
        parse_stream_id(varint(id as nat) + payload) == Ok::<(u64, Seq<u8>), RpcErrorView>(
            (id, payload),
        ),
{
    lemma_leb128_roundtrip(id, payload);
}

/// A method name of at most [`MAX_METHOD_NAME_LEN`] bytes that [`encode_method_name`]
/// wrote is what [`decode_method_name`] reads, and the payload behind it comes back
/// untouched.
pub proof fn method_name_roundtrip(name: Seq<char>, payload: Seq<u8>)
    requires
        encode_utf8(name).len() <= MAX_METHOD_NAME_LEN,
    ensures
        parse_method_name(text_field(name) + payload) == Ok::<(Seq<char>, Seq<u8>), RpcErrorView>(
            (name, payload),
        ),
{
    let bytes = encode_utf8(name);
    assert(text_field(name) + payload =~= varint(bytes.len()) + (bytes + payload));
    lemma_leb128_roundtrip(bytes.len() as u64, bytes + payload);
    assert((bytes + payload).take(bytes.len() as int) =~= bytes);
    assert((bytes + payload).skip(bytes.len() as int) =~= payload);
    encode_utf8_valid_utf8(name);
    encode_utf8_decode_utf8(name);
}

/// A longer method name is refused by [`decode_method_name`], whatever else the buffer
/// holds.
pub proof fn oversized_method_name_refused(declared: u64, rest: Seq<u8>)
    requires
        declared > MAX_METHOD_NAME_LEN,
    ensures
        parse_method_name(varint(declared as nat) + rest) is Err,
{
    lemma_leb128_roundtrip(declared, rest);
}

/// What [`decode_method_name`] accepts is never longer than [`MAX_METHOD_NAME_LEN`]
/// bytes, and name and payload lie inside the buffer.
pub proof fn decoded_method_name_bounds(b: Seq<u8>)
    ensures
        parse_method_name(b) matches Ok((name, rest)) ==> {
            &&& encode_utf8(name).len() <= MAX_METHOD_NAME_LEN
            &&& encode_utf8(name).len() + rest.len() < b.len()
            &&& rest == b.skip(b.len() - rest.len())
        },
{
    lemma_varint_run(b);
    if let Ok((name, rest)) = parse_method_name(b) {
        let (n, tail) = take_leb128(b)->Ok_0;
        vstd::utf8::decode_utf8_encode_utf8(tail.take(n as int));
        assert(rest =~= b.skip(b.len() - rest.len()));
    }
}

} // verus!
