//! The typed error envelope of a failed unary call.
//!
//! An envelope is one tag byte, which names the variant, and the fields of that
//! variant. The tag carries the classification, so rewording or translating a message
//! never changes which error the client sees.
use vstd::prelude::*;
use vstd::utf8::encode_utf8;

use crate::codec::{
    get_text, get_texts, get_u32, lemma_text_roundtrip, lemma_texts_roundtrip, lemma_u32_roundtrip,
    put_text, put_texts, put_u32, take_text, take_texts, take_u32, text_field, texts, texts_field,
    texts_fit, CodecError,
};
use crate::error::{codec_error_text, error_text, RpcError, RpcErrorView};
use crate::text::join2;
use crate::varint::varint;

verus! {

/// Tag of [`WireError::UnknownMethod`].
pub const WIRE_ERROR_UNKNOWN_METHOD: u8 = 0x00;

/// Tag of [`WireError::VersionMismatch`].
pub const WIRE_ERROR_VERSION_MISMATCH: u8 = 0x01;

/// Tag of [`WireError::InvalidMethodName`].
pub const WIRE_ERROR_INVALID_METHOD_NAME: u8 = 0x02;

/// Tag of [`WireError::MalformedFrame`].
pub const WIRE_ERROR_MALFORMED_FRAME: u8 = 0x03;

/// Tag of [`WireError::HandlerError`].
pub const WIRE_ERROR_HANDLER_ERROR: u8 = 0x04;

/// Tag of [`WireError::Codec`].
pub const WIRE_ERROR_CODEC: u8 = 0x05;

/// Error payload of a unary error response.
#[derive(Clone, Debug, PartialEq, Eq)]
pub enum WireError {
    /// No handler is registered for the requested method.
    UnknownMethod {
        /// Method the client asked for.
        method_name: String,
    },
    /// The caller asked for a version that is not registered.
    VersionMismatch {
        /// Version the caller asked for.
        requested: String,
        /// Versions that are registered.
        available: Vec<String>,
    },
    /// A method name does not have the form `package[@version]/interface/method`.
    InvalidMethodName {
        /// The name as it came.
        input: String,
    },
    /// A frame is not built as it must be.
    MalformedFrame {
        /// What is wrong with it.
        reason: String,
    },
    /// The handler failed, or the server did.
    HandlerError {
        /// Message of the failure.
        display: String,
    },
    /// The server could not decode a request or encode a response.
    Codec {
        /// Message of the codec error.
        display: String,
    },
}

/// A [`WireError`] with its strings taken as texts.
pub enum WireErrorView {
    UnknownMethod { method_name: Seq<char> },
    VersionMismatch { requested: Seq<char>, available: Seq<Seq<char>> },
    InvalidMethodName { input: Seq<char> },
    MalformedFrame { reason: Seq<char> },
    HandlerError { display: Seq<char> },
    Codec { display: Seq<char> },
}

impl View for WireError {
    type V = WireErrorView;

    open spec fn view(&self) -> WireErrorView {
        match *self {
            WireError::UnknownMethod { method_name } => WireErrorView::UnknownMethod {
                method_name: method_name@,
            },
            WireError::VersionMismatch { requested, available } => WireErrorView::VersionMismatch {
                requested: requested@,
                available: texts(available@),
            },
            WireError::InvalidMethodName { input } => WireErrorView::InvalidMethodName {
                input: input@,
            },
            WireError::MalformedFrame { reason } => WireErrorView::MalformedFrame {
                reason: reason@,
            },
            WireError::HandlerError { display } => WireErrorView::HandlerError {
                display: display@,
            },
            WireError::Codec { display } => WireErrorView::Codec { display: display@ },
        }
    }
}

/// The tag of an envelope.
pub open spec fn wire_error_tag(w: WireErrorView) -> u8 {
    match w {
        WireErrorView::UnknownMethod { .. } => WIRE_ERROR_UNKNOWN_METHOD,
        WireErrorView::VersionMismatch { .. } => WIRE_ERROR_VERSION_MISMATCH,
        WireErrorView::InvalidMethodName { .. } => WIRE_ERROR_INVALID_METHOD_NAME,
        WireErrorView::MalformedFrame { .. } => WIRE_ERROR_MALFORMED_FRAME,
        WireErrorView::HandlerError { .. } => WIRE_ERROR_HANDLER_ERROR,
        WireErrorView::Codec { .. } => WIRE_ERROR_CODEC,
    }
}

/// The bytes of an envelope: its tag, then the fields of its variant.
pub open spec fn wire_error_bytes(w: WireErrorView) -> Seq<u8> {
    varint(wire_error_tag(w) as nat) + match w {
        WireErrorView::UnknownMethod { method_name } => text_field(method_name),
        WireErrorView::VersionMismatch { requested, available } => text_field(requested)
            + texts_field(available),
        WireErrorView::InvalidMethodName { input } => text_field(input),
        WireErrorView::MalformedFrame { reason } => text_field(reason),
        WireErrorView::HandlerError { display } => text_field(display),
        WireErrorView::Codec { display } => text_field(display),
    }
}

/// Reading an envelope from the front of a buffer.
pub open spec fn take_wire_error(b: Seq<u8>) -> Result<(WireErrorView, Seq<u8>), CodecError> {
    match take_u32(b) {
        Err(e) => Err(e),
        Ok((tag, body)) => if tag > WIRE_ERROR_CODEC {
            Err(CodecError::SerdeDeCustom)
        } else {
            match take_text(body) {
                Err(e) => Err(e),
                Ok((s, rest)) => if tag == WIRE_ERROR_UNKNOWN_METHOD {
                    Ok((WireErrorView::UnknownMethod { method_name: s }, rest))
                } else if tag == WIRE_ERROR_VERSION_MISMATCH {
                    match take_texts(rest) {
                        Err(e) => Err(e),
                        Ok((available, rest)) => Ok(
                            (WireErrorView::VersionMismatch { requested: s, available }, rest),
                        ),
                    }
                } else if tag == WIRE_ERROR_INVALID_METHOD_NAME {
                    Ok((WireErrorView::InvalidMethodName { input: s }, rest))
                } else if tag == WIRE_ERROR_MALFORMED_FRAME {
                    Ok((WireErrorView::MalformedFrame { reason: s }, rest))
                } else if tag == WIRE_ERROR_HANDLER_ERROR {
                    Ok((WireErrorView::HandlerError { display: s }, rest))
                } else {
                    Ok((WireErrorView::Codec { display: s }, rest))
                },
            }
        },
    }
}

/// The envelope that a server-side error travels in. An error that is none of the
/// client's business becomes a handler error with the error's message.
pub open spec fn wire_of(e: RpcErrorView) -> WireErrorView {
    match e {
        RpcErrorView::UnknownMethod(method_name) => WireErrorView::UnknownMethod { method_name },
        RpcErrorView::VersionMismatch { requested, available } => WireErrorView::VersionMismatch {
            requested,
            available,
        },
        RpcErrorView::InvalidMethodName(input) => WireErrorView::InvalidMethodName { input },
        RpcErrorView::MalformedFrame(reason) => WireErrorView::MalformedFrame { reason },
        RpcErrorView::Codec(c) => WireErrorView::Codec { display: codec_error_text(c) },
        _ => WireErrorView::HandlerError { display: error_text(e) },
    }
}

/// `s` without one leading "handler error: ".
pub open spec fn strip_handler_prefix(s: Seq<char>) -> Seq<char> {
    let prefix = "handler error: "@;
    if prefix.is_prefix_of(s) {
        s.skip(prefix.len() as int)
    } else {
        s
    }
}

/// The error that a client makes of an envelope.
pub open spec fn rpc_of(w: WireErrorView) -> RpcErrorView {
    match w {
        WireErrorView::UnknownMethod { method_name } => RpcErrorView::UnknownMethod(method_name),
        WireErrorView::VersionMismatch { requested, available } => RpcErrorView::VersionMismatch {
            requested,
            available,
        },
        WireErrorView::InvalidMethodName { input } => RpcErrorView::InvalidMethodName(input),
        WireErrorView::MalformedFrame { reason } => RpcErrorView::MalformedFrame(reason),
        WireErrorView::HandlerError { display } => RpcErrorView::Handler(
            strip_handler_prefix(display),
        ),
        WireErrorView::Codec { display } => RpcErrorView::Handler(
            "server codec error: "@ + display,
        ),
    }
}

/// Copies a list of strings.
fn copy_texts(list: &Vec<String>) -> (r: Vec<String>)
    ensures
        texts(r@) == texts(list@),
{
    let mut out: Vec<String> = Vec::new();
    let mut i: usize = 0;
    while i < list.len()
        invariant
            i <= list@.len(),
            out@ == list@.take(i as int),
        decreases list@.len() - i,
    {
        out.push(list[i].clone());
        i = i + 1;
        assert(list@.take(i as int) =~= list@.take(i - 1).push(list@[i - 1]));
    }
    assert(list@.take(i as int) =~= list@);
    out
}

/// Removes one leading "handler error: ".
fn without_handler_prefix(s: String) -> (r: String)
    ensures
        r@ == strip_handler_prefix(s@),
{
    let prefix = "handler error: ";
    proof {
        reveal_strlit("handler error: ");
    }
    let n: usize = 15;
    let total: usize = s.as_str().unicode_len();
    if total < n {
        return s;
    }
    let mut i: usize = 0;
    while i < n
        invariant
            i <= n <= total,
            n == prefix@.len(),
            total == s@.len(),
            prefix@ == "handler error: "@,
            forall|j: int| 0 <= j < i ==> s@[j] == prefix@[j],
        decreases n - i,
    {
        if s.as_str().get_char(i) != prefix.get_char(i) {
            assert(s@[i as int] != prefix@[i as int]);
            return s;
        }
        i = i + 1;
    }
    let inner = s.as_str().substring_char(n, total);
    assert(s@.subrange(0, n as int) =~= prefix@);
    assert(inner@ =~= s@.skip(n as int));
    inner.to_owned()
}

impl WireError {
    /// The envelope that a server-side error travels in.
    pub fn from_rpc_error(err: &RpcError) -> (r: Self)
        ensures
            r@ == wire_of(err@),
    {
        match err {
            RpcError::UnknownMethod(name) => WireError::UnknownMethod {
                method_name: name.clone(),
            },
            RpcError::VersionMismatch { requested, available } => WireError::VersionMismatch {
                requested: requested.clone(),
                available: copy_texts(available),
            },
            RpcError::InvalidMethodName(input) => WireError::InvalidMethodName {
                input: input.clone(),
            },
            RpcError::MalformedFrame(reason) => WireError::MalformedFrame {
                reason: reason.clone(),
            },
            RpcError::Codec(e) => WireError::Codec { display: e.to_string() },
            _ => WireError::HandlerError { display: err.to_string() },
        }
    }

    /// The error that a client makes of the envelope.
    pub fn into_rpc_error(self) -> (r: RpcError)
        ensures
            r@ == rpc_of(self@),
    {
        match self {
            WireError::UnknownMethod { method_name } => RpcError::UnknownMethod(method_name),
            WireError::VersionMismatch { requested, available } => RpcError::VersionMismatch {
                requested,
                available,
            },
            WireError::InvalidMethodName { input } => RpcError::InvalidMethodName(input),
            WireError::MalformedFrame { reason } => RpcError::MalformedFrame(reason),
            WireError::HandlerError { display } => RpcError::Handler(
                without_handler_prefix(display),
            ),
            WireError::Codec { display } => RpcError::Handler(
                join2("server codec error: ", display.as_str()),
            ),
        }
    }

    /// The bytes of the envelope. [`WireError::from_bytes`] reads the envelope back from
    /// them.
    pub fn to_bytes(&self) -> (r: Vec<u8>)
        ensures
            r@ == wire_error_bytes(self@),
            wire_error_fits(self@),
            take_wire_error(r@) == Ok::<(WireErrorView, Seq<u8>), CodecError>((self@, seq![])),
    {
        let mut buf: Vec<u8> = Vec::new();
        match self {
            WireError::UnknownMethod { method_name } => {
                put_u32(&mut buf, WIRE_ERROR_UNKNOWN_METHOD as u32);
                put_text(&mut buf, method_name.as_str());
            },
            WireError::VersionMismatch { requested, available } => {
                put_u32(&mut buf, WIRE_ERROR_VERSION_MISMATCH as u32);
                put_text(&mut buf, requested.as_str());
                put_texts(&mut buf, available);
            },
            WireError::InvalidMethodName { input } => {
                put_u32(&mut buf, WIRE_ERROR_INVALID_METHOD_NAME as u32);
                put_text(&mut buf, input.as_str());
            },
            WireError::MalformedFrame { reason } => {
                put_u32(&mut buf, WIRE_ERROR_MALFORMED_FRAME as u32);
                put_text(&mut buf, reason.as_str());
            },
            WireError::HandlerError { display } => {
                put_u32(&mut buf, WIRE_ERROR_HANDLER_ERROR as u32);
                put_text(&mut buf, display.as_str());
            },
            WireError::Codec { display } => {
                put_u32(&mut buf, WIRE_ERROR_CODEC as u32);
                put_text(&mut buf, display.as_str());
            },
        }
        assert(buf@ =~= wire_error_bytes(self@));
        assert(buf@ =~= buf@ + Seq::<u8>::empty());
        proof {
            wire_error_roundtrip(self@, seq![]);
        }
        buf
    }

    /// Reads an envelope from the front of a buffer; bytes behind it are ignored.
    pub fn from_bytes(b: &[u8]) -> (r: Result<Self, CodecError>)
        ensures
            match r {
                Ok(w) => take_wire_error(b@) matches Ok((v, _)) && v == w@,
                Err(e) => take_wire_error(b@) == Err::<(WireErrorView, Seq<u8>), CodecError>(e),
            },
    {
        let (tag, body) = match get_u32(b) {
            Ok(taken) => taken,
            Err(e) => return Err(e),
        };
        if tag > WIRE_ERROR_CODEC as u32 {
            return Err(CodecError::SerdeDeCustom);
        }
        let (s, rest) = match get_text(body) {
            Ok(taken) => taken,
            Err(e) => return Err(e),
        };
        if tag == WIRE_ERROR_UNKNOWN_METHOD as u32 {
            Ok(WireError::UnknownMethod { method_name: s })
        } else if tag == WIRE_ERROR_VERSION_MISMATCH as u32 {
            match get_texts(rest) {
                Ok((available, _)) => Ok(WireError::VersionMismatch { requested: s, available }),
                Err(e) => Err(e),
            }
        } else if tag == WIRE_ERROR_INVALID_METHOD_NAME as u32 {
            Ok(WireError::InvalidMethodName { input: s })
        } else if tag == WIRE_ERROR_MALFORMED_FRAME as u32 {
            Ok(WireError::MalformedFrame { reason: s })
        } else if tag == WIRE_ERROR_HANDLER_ERROR as u32 {
            Ok(WireError::HandlerError { display: s })
        } else {
            Ok(WireError::Codec { display: s })
        }
    }
}

/// Whether every text of an envelope fits the machine's address space, as every string
/// in memory does.
pub open spec fn wire_error_fits(w: WireErrorView) -> bool {
    match w {
        WireErrorView::UnknownMethod { method_name } => encode_utf8(method_name).len()
            <= usize::MAX,
        WireErrorView::VersionMismatch { requested, available } => {
            encode_utf8(requested).len() <= usize::MAX && texts_fit(available)
        },
        WireErrorView::InvalidMethodName { input } => encode_utf8(input).len() <= usize::MAX,
        WireErrorView::MalformedFrame { reason } => encode_utf8(reason).len() <= usize::MAX,
        WireErrorView::HandlerError { display } => encode_utf8(display).len() <= usize::MAX,
        WireErrorView::Codec { display } => encode_utf8(display).len() <= usize::MAX,
    }
}

/// An envelope that [`WireError::to_bytes`] wrote is what [`WireError::from_bytes`]
/// reads.
pub proof fn wire_error_roundtrip(w: WireErrorView, rest: Seq<u8>)
    requires
        wire_error_fits(w),
    ensures
        take_wire_error(wire_error_bytes(w) + rest) == Ok::<
            (WireErrorView, Seq<u8>),
            CodecError,
        >((w, rest)),
{
    let tag = wire_error_tag(w);
    let head = varint(tag as nat);
    let b = wire_error_bytes(w) + rest;
    match w {
        WireErrorView::VersionMismatch { requested, available } => {
            let body = text_field(requested) + (texts_field(available) + rest);
            assert(b =~= head + body);
            lemma_u32_roundtrip(tag as u32, body);
            lemma_text_roundtrip(requested, texts_field(available) + rest);
            lemma_texts_roundtrip(available, rest);
        },
        WireErrorView::UnknownMethod { method_name: s }
        | WireErrorView::InvalidMethodName { input: s }
        | WireErrorView::MalformedFrame { reason: s }
        | WireErrorView::HandlerError { display: s }
        | WireErrorView::Codec { display: s } => {
            assert(b =~= head + (text_field(s) + rest));
            lemma_u32_roundtrip(tag as u32, text_field(s) + rest);
            lemma_text_roundtrip(s, rest);
        },
    }
}

/// The first byte of an envelope is the tag of its variant, whatever the messages say.
pub proof fn wire_error_tag_leads(w: WireErrorView)
    ensures
        wire_error_bytes(w)[0] == wire_error_tag(w),
{
    assert(varint(wire_error_tag(w) as nat) =~= seq![wire_error_tag(w)]);
}

/// An error that the client can act on, or that a handler returned, reaches the client
/// as it was, and reads there as it does on the server: a handler's message is led by
/// "handler error: " once, not twice.
pub proof fn error_survives_wire(e: RpcErrorView)
    requires
        e is UnknownMethod || e is VersionMismatch || e is InvalidMethodName || e is MalformedFrame
            || e is Handler,
    ensures
        rpc_of(wire_of(e)) == e,
        error_text(rpc_of(wire_of(e))) == error_text(e),
{
    if let RpcErrorView::Handler(s) = e {
        let prefix = "handler error: "@;
        let sent = error_text(e);
        assert(sent == prefix + s);
        assert(sent.subrange(0, prefix.len() as int) =~= prefix);
        assert(sent.skip(prefix.len() as int) =~= s);
    }
}

/// A codec error reaches the client as a handler error that quotes it.
pub proof fn codec_error_becomes_handler(c: CodecError)
    ensures
        rpc_of(wire_of(RpcErrorView::Codec(c))) == RpcErrorView::Handler(
            "server codec error: "@ + codec_error_text(c),
        ),
{
}

/// Any other error of the server reaches the client as a handler error with the whole
/// message of the server.
pub proof fn internal_error_becomes_handler(e: RpcErrorView)
    requires
        !(e is UnknownMethod || e is VersionMismatch || e is InvalidMethodName
            || e is MalformedFrame || e is Handler || e is Codec),
    ensures
        rpc_of(wire_of(e)) == RpcErrorView::Handler(error_text(e)),
{
    reveal_strlit("handler error: ");
    reveal_strlit("transport: failed to open substream to peer ");
    reveal_strlit("transport: failed to register ALPN handler '");
    reveal_strlit("transport: read failed: ");
    reveal_strlit("transport: write failed: ");
    reveal_strlit("datagram: token ");
    reveal_strlit("datagram: stream-id ");
    reveal_strlit("datagram: too short (");
    reveal_strlit("server is already serving");
    let (prefix, sent) = ("handler error: "@, error_text(e));
    assert(sent[0] != 'h');
    if prefix.is_prefix_of(sent) {
        assert(sent.subrange(0, prefix.len() as int)[0] == sent[0]);
        assert(prefix[0] == 'h');
    }
}

} // verus!
