//! Laws on errors: how they read, and how they cross the wire.
use vstd::prelude::*;

use crate::codec::{lemma_u32_roundtrip, text_field, texts, texts_body, texts_field, CodecError};
use crate::error::{codec_error_text, RpcError};
use crate::laws::frames::sized_text;
use crate::text::{debug_items, debug_list_text, debug_text, decimal};
use crate::varint::varint;
use crate::wire_error::{
    codec_error_becomes_handler, error_survives_wire, internal_error_becomes_handler,
    wire_error_bytes, wire_error_roundtrip, WireError,
};

verus! {

/// Whether two lists of strings hold the same texts.
pub open spec fn same_texts(a: Seq<String>, b: Seq<String>) -> bool {
    a.len() == b.len() && forall|i: int| 0 <= i < a.len() ==> (#[trigger] a[i])@ == b[i]@
}

/// Whether two errors say the same: the same kind, and the same texts and numbers.
pub open spec fn same_error(e: RpcError, g: RpcError) -> bool {
    match e {
        RpcError::Codec(c) => g matches RpcError::Codec(d) && c == d,
        RpcError::MalformedFrame(s) => g matches RpcError::MalformedFrame(t) && s@ == t@,
        RpcError::UnknownMethod(s) => g matches RpcError::UnknownMethod(t) && s@ == t@,
        RpcError::InvalidMethodName(s) => g matches RpcError::InvalidMethodName(t) && s@ == t@,
        RpcError::VersionMismatch { requested, available } => {
            g matches RpcError::VersionMismatch { requested: r, available: a } && requested@ == r@
                && same_texts(available@, a@)
        },
        RpcError::Handler(s) => g matches RpcError::Handler(t) && s@ == t@,
        RpcError::TransportOpenSubstream { node_id, reason } => {
            g matches RpcError::TransportOpenSubstream { node_id: n, reason: r } && node_id@ == n@
                && reason@ == r@
        },
        RpcError::TransportRegisterAlpn { alpn, reason } => {
            g matches RpcError::TransportRegisterAlpn { alpn: a, reason: r } && alpn@ == a@
                && reason@ == r@
        },
        RpcError::TransportRead { reason } => g matches RpcError::TransportRead { reason: r }
            && reason@ == r@,
        RpcError::TransportWrite { reason } => g matches RpcError::TransportWrite { reason: r }
            && reason@ == r@,
        RpcError::DatagramTokenCollision { token } => {
            g matches RpcError::DatagramTokenCollision { token: t } && token == t
        },
        RpcError::DatagramTokenUnknown { token } => {
            g matches RpcError::DatagramTokenUnknown { token: t } && token == t
        },
        RpcError::DatagramStreamIdCollision { stream_id } => {
            g matches RpcError::DatagramStreamIdCollision { stream_id: s } && stream_id == s
        },
        RpcError::DatagramStreamIdUnknown { stream_id } => {
            g matches RpcError::DatagramStreamIdUnknown { stream_id: s } && stream_id == s
        },
        RpcError::DatagramTooShort { len } => g matches RpcError::DatagramTooShort { len: l }
            && len == l,
        RpcError::AlreadyServing => g is AlreadyServing,
    }
}

/// Equal lists of texts come from lists with the same texts.
pub proof fn lemma_same_texts(a: Seq<String>, b: Seq<String>)
    requires
        texts(a) == texts(b),
    ensures
        same_texts(a, b),
{
    assert(texts(a).len() == a.len() && texts(b).len() == b.len());
    assert forall|i: int| 0 <= i < a.len() implies (#[trigger] a[i])@ == b[i]@ by {
        assert(texts(a)[i] == a[i]@);
        assert(texts(b)[i] == b[i]@);
    }
}

/// The view of an error leaves nothing out: errors with the same view say the same.
pub proof fn views_of_errors_are_faithful(e: RpcError, g: RpcError)
    requires
        e@ == g@,
    ensures
        same_error(e, g),
{
    if let RpcError::VersionMismatch { available, .. } = e {
        if let RpcError::VersionMismatch { available: other, .. } = g {
            lemma_same_texts(available@, other@);
        }
    }
}

/// How an error reads: what kind it is, and all that it carries.
pub proof fn errors_read(e: &RpcError, r: String)
    requires
        call_ensures(RpcError::to_string, (e,), r),
    ensures
        match *e {
            RpcError::Codec(_) => true,
            RpcError::MalformedFrame(s) => r@ == "malformed wire frame: "@ + s@,
            RpcError::UnknownMethod(s) => r@ == "unknown method: "@ + s@,
            RpcError::InvalidMethodName(s) => r@
                == "invalid method-name format: expected `package[@version]/interface/method`, got `"@
                + s@ + "`"@,
            RpcError::VersionMismatch { .. } => true,
            RpcError::Handler(s) => r@ == "handler error: "@ + s@,
            RpcError::TransportOpenSubstream { node_id, reason } => r@
                == "transport: failed to open substream to peer "@ + node_id@ + ": "@ + reason@,
            RpcError::TransportRegisterAlpn { alpn, reason } => r@
                == "transport: failed to register ALPN handler '"@ + alpn@ + "': "@ + reason@,
            RpcError::TransportRead { reason } => r@ == "transport: read failed: "@ + reason@,
            RpcError::TransportWrite { reason } => r@ == "transport: write failed: "@ + reason@,
            RpcError::DatagramTokenCollision { token } => r@ == "datagram: token "@ + decimal(
                token as nat,
            ) + " already registered"@,
            RpcError::DatagramTokenUnknown { token } => r@ == "datagram: token "@ + decimal(
                token as nat,
            ) + " not registered"@,
            RpcError::DatagramStreamIdCollision { stream_id } => r@ == "datagram: stream-id "@
                + decimal(stream_id as nat) + " already registered"@,
            RpcError::DatagramStreamIdUnknown { stream_id } => r@ == "datagram: stream-id "@
                + decimal(stream_id as nat) + " not registered"@,
            RpcError::DatagramTooShort { len } => r@ == "datagram: too short ("@ + decimal(
                len as nat,
            ) + " bytes), need at least 1 byte for token"@,
            RpcError::AlreadyServing => r@ == "server is already serving"@,
        },
{
}

/// A codec error reads as the error of the codec behind "codec error: ".
pub proof fn codec_errors_read(c: CodecError, inner: String, r: String)
    requires
        call_ensures(CodecError::to_string, (&c,), inner),
        call_ensures(RpcError::to_string, (&RpcError::Codec(c),), r),
    ensures
        r@ == "codec error: "@ + inner@,
        inner@ == (match c {
            CodecError::WontImplement => "This is a feature that PostCard will never implement"@,
            CodecError::NotYetImplemented => "This is a feature that Postcard intends to support, but does not yet"@,
            CodecError::SerializeBufferFull => "The serialize buffer is full"@,
            CodecError::SerializeSeqLengthUnknown => "The length of a sequence must be known"@,
            CodecError::DeserializeUnexpectedEnd => "Hit the end of buffer, expected more data"@,
            CodecError::DeserializeBadVarint => "Found a varint that didn't terminate. Is the usize too big for this platform?"@,
            CodecError::DeserializeBadBool => "Found a bool that wasn't 0 or 1"@,
            CodecError::DeserializeBadChar => "Found an invalid unicode char"@,
            CodecError::DeserializeBadUtf8 => "Tried to parse invalid utf-8"@,
            CodecError::DeserializeBadOption => "Found an Option discriminant that wasn't 0 or 1"@,
            CodecError::DeserializeBadEnum => "Found an enum discriminant that was > u32::max_value()"@,
            CodecError::DeserializeBadEncoding => "The original data was not well encoded"@,
            CodecError::DeserializeBadCrc => "Bad CRC while deserializing"@,
            CodecError::SerdeSerCustom => "Serde Serialization Error"@,
            CodecError::SerdeDeCustom => "Serde Deserialization Error"@,
            CodecError::CollectStrError => "Error while processing `collect_str` during serialization"@,
        }),
{
}

/// A version mismatch reads with the version that was asked for and the list of those that
/// there are.
pub proof fn version_mismatches_read(
    e: &RpcError,
    requested: String,
    available: Vec<String>,
    list: String,
    r: String,
)
    requires
        *e == (RpcError::VersionMismatch { requested, available }),
        call_ensures(RpcError::to_string, (e,), r),
        call_ensures(debug_list_text, (&available,), list),
    ensures
        r@ == "version mismatch: requested "@ + requested@ + ", available "@ + list@,
{
}

/// A list reads in square brackets, its items in debug format with commas between them.
pub proof fn lists_read(list: &Vec<String>, longer: &Vec<String>, r: String, s: String)
    requires
        call_ensures(debug_list_text, (list,), r),
        call_ensures(debug_list_text, (longer,), s),
        longer@.len() == list@.len() + 1,
        forall|i: int| 0 <= i < list@.len() ==> (#[trigger] longer@[i])@ == list@[i]@,
    ensures
        list@.len() == 0 ==> r@ == "["@ + "]"@,
        list@.len() == 0 ==> s@ == "["@ + debug_text(longer@[0]@) + "]"@,
        list@.len() > 0 ==> exists|items: Seq<char>|
            #![trigger "["@ + items]
            {
                &&& r@ == "["@ + items + "]"@
                &&& s@ == "["@ + (items + ", "@ + debug_text(longer@.last()@)) + "]"@
            },
{
    let (a, b) = (texts(list@), texts(longer@));
    assert(b.len() == longer@.len() && a.len() == list@.len());
    assert forall|i: int| 0 <= i < a.len() implies a[i] == b[i] by {
        assert(longer@[i]@ == list@[i]@);
    }
    assert(b.drop_last() =~= a);
    assert(b.last() == longer@.last()@);
    if a.len() == 0 {
        assert("["@ + debug_items(a) + "]"@ =~= "["@ + "]"@);
    } else {
        let items = debug_items(a);
        assert(r@ == "["@ + items + "]"@);
    }
}

/// The texts of a list one after the other, each with its length in front.
pub open spec fn sized_each(list: Seq<String>) -> Seq<u8>
    decreases list.len(),
{
    if list.len() == 0 {
        seq![]
    } else {
        sized_text(list[0]@) + sized_each(list.drop_first())
    }
}

/// A list of texts with its length in front.
pub open spec fn sized_texts(list: Seq<String>) -> Seq<u8> {
    varint(list.len()) + sized_each(list)
}

/// The bytes of a list of texts are those written out.
pub proof fn lemma_sized_texts(list: Seq<String>)
    ensures
        texts_field(texts(list)) == sized_texts(list),
        texts_body(texts(list)) == sized_each(list),
    decreases list.len(),
{
    assert(texts(list).len() == list.len());
    if list.len() > 0 {
        lemma_sized_texts(list.drop_first());
        assert(texts(list).drop_first() =~= texts(list.drop_first()));
        assert(texts(list)[0] == list[0]@);
        assert(text_field(list[0]@) =~= sized_text(list[0]@));
    }
}

/// The bytes of an envelope: its number, then what it carries.
pub open spec fn envelope(w: WireError) -> Seq<u8> {
    match w {
        WireError::UnknownMethod { method_name } => seq![0u8] + sized_text(method_name@),
        WireError::VersionMismatch { requested, available } => seq![1u8] + (sized_text(requested@)
            + sized_texts(available@)),
        WireError::InvalidMethodName { input } => seq![2u8] + sized_text(input@),
        WireError::MalformedFrame { reason } => seq![3u8] + sized_text(reason@),
        WireError::HandlerError { display } => seq![4u8] + sized_text(display@),
        WireError::Codec { display } => seq![5u8] + sized_text(display@),
    }
}

/// Whether two envelopes say the same.
pub open spec fn same_envelope(w: WireError, x: WireError) -> bool {
    match w {
        WireError::UnknownMethod { method_name } => {
            x matches WireError::UnknownMethod { method_name: m } && method_name@ == m@
        },
        WireError::VersionMismatch { requested, available } => {
            x matches WireError::VersionMismatch { requested: r, available: a } && requested@ == r@
                && same_texts(available@, a@)
        },
        WireError::InvalidMethodName { input } => {
            x matches WireError::InvalidMethodName { input: i } && input@ == i@
        },
        WireError::MalformedFrame { reason } => {
            x matches WireError::MalformedFrame { reason: r } && reason@ == r@
        },
        WireError::HandlerError { display } => {
            x matches WireError::HandlerError { display: d } && display@ == d@
        },
        WireError::Codec { display } => {
            x matches WireError::Codec { display: d } && display@ == d@
        },
    }
}

/// The bytes of an envelope are those written out.
pub proof fn lemma_envelope(w: WireError)
    ensures
        wire_error_bytes(w@) == envelope(w),
{
    assert(varint(0) =~= seq![0u8]);
    assert(varint(1) =~= seq![1u8]);
    assert(varint(2) =~= seq![2u8]);
    assert(varint(3) =~= seq![3u8]);
    assert(varint(4) =~= seq![4u8]);
    assert(varint(5) =~= seq![5u8]);
    if let WireError::VersionMismatch { available, .. } = w {
        lemma_sized_texts(available@);
    }
    assert(wire_error_bytes(w@) =~= envelope(w));
}

/// An envelope is written as its number and what it carries, and read back from these
/// bytes, whatever follows them.
pub proof fn envelopes_read_back(
    w: &WireError,
    b: Vec<u8>,
    rest: Seq<u8>,
    input: &[u8],
    r: Result<WireError, CodecError>,
)
    requires
        call_ensures(WireError::to_bytes, (w,), b),
        call_ensures(WireError::from_bytes, (input,), r),
        input@ == b@ + rest,
    ensures
        b@ == envelope(*w),
        r matches Ok(x) && same_envelope(*w, x),
{
    lemma_envelope(*w);
    wire_error_roundtrip(w@, rest);
    if let WireError::VersionMismatch { available, .. } = *w {
        if let Ok(WireError::VersionMismatch { available: other, .. }) = r {
            lemma_same_texts(available@, other@);
        }
    }
}

/// An envelope with a number beyond 5 is refused.
pub proof fn unknown_envelopes_are_refused(
    tag: u32,
    rest: Seq<u8>,
    input: &[u8],
    r: Result<WireError, CodecError>,
)
    requires
        call_ensures(WireError::from_bytes, (input,), r),
        tag > 5,
        input@ == varint(tag as nat) + rest,
    ensures
        r == Err::<WireError, CodecError>(CodecError::SerdeDeCustom),
{
    lemma_u32_roundtrip(tag, rest);
}

/// The envelope of an error: what the client can act on travels as it is, a codec error as
/// the codec's message, and everything else as a handler error with its whole message.
pub proof fn envelopes_of_errors(e: &RpcError, text: String, w: WireError)
    requires
        call_ensures(WireError::from_rpc_error, (e,), w),
        call_ensures(RpcError::to_string, (e,), text),
    ensures
        match *e {
            RpcError::UnknownMethod(s) => w matches WireError::UnknownMethod { method_name }
                && method_name@ == s@,
            RpcError::VersionMismatch { requested, available } => {
                w matches WireError::VersionMismatch { requested: r, available: a } && r@
                    == requested@ && same_texts(available@, a@)
            },
            RpcError::InvalidMethodName(s) => w matches WireError::InvalidMethodName { input }
                && input@ == s@,
            RpcError::MalformedFrame(s) => w matches WireError::MalformedFrame { reason }
                && reason@ == s@,
            RpcError::Codec(c) => w matches WireError::Codec { display } && text@
                == "codec error: "@ + display@,
            _ => w matches WireError::HandlerError { display } && display@ == text@,
        },
{
    if let RpcError::VersionMismatch { available, .. } = *e {
        if let WireError::VersionMismatch { available: other, .. } = w {
            lemma_same_texts(available@, other@);
        }
    }
}

/// The error that a client makes of an envelope. Of a handler's message one leading
/// "handler error: " is taken off, and nothing else.
pub proof fn errors_of_envelopes(w: WireError, e: RpcError, inner: Seq<char>)
    requires
        call_ensures(WireError::into_rpc_error, (w,), e),
    ensures
        match w {
            WireError::UnknownMethod { method_name } => e matches RpcError::UnknownMethod(s) && s@
                == method_name@,
            WireError::VersionMismatch { requested, available } => {
                e matches RpcError::VersionMismatch { requested: r, available: a } && r@
                    == requested@ && same_texts(available@, a@)
            },
            WireError::InvalidMethodName { input } => e matches RpcError::InvalidMethodName(s)
                && s@ == input@,
            WireError::MalformedFrame { reason } => e matches RpcError::MalformedFrame(s) && s@
                == reason@,
            WireError::HandlerError { display } => e matches RpcError::Handler(s) && {
                &&& display@ == "handler error: "@ + inner ==> s@ == inner
                &&& !"handler error: "@.is_prefix_of(display@) ==> s@ == display@
            },
            WireError::Codec { display } => e matches RpcError::Handler(s) && s@
                == "server codec error: "@ + display@,
        },
{
    match w {
        WireError::VersionMismatch { available, .. } => {
            if let RpcError::VersionMismatch { available: other, .. } = e {
                lemma_same_texts(available@, other@);
            }
        },
        WireError::HandlerError { display } => {
            let prefix = "handler error: "@;
            if display@ == prefix + inner {
                assert(display@.subrange(0, prefix.len() as int) =~= prefix);
                assert(display@.skip(prefix.len() as int) =~= inner);
            }
        },
        _ => {},
    }
}

/// An error that the client can act on, or that a handler returned, reaches the client as
/// it was; a codec error as a handler error that quotes the codec; and any other as a
/// handler error with its whole message.
pub proof fn errors_cross_the_wire(
    e: &RpcError,
    text: String,
    w: WireError,
    b: Vec<u8>,
    input: &[u8],
    read: Result<WireError, CodecError>,
    g: RpcError,
)
    requires
        call_ensures(RpcError::to_string, (e,), text),
        call_ensures(WireError::from_rpc_error, (e,), w),
        call_ensures(WireError::to_bytes, (&w,), b),
        input@ == b@,
        call_ensures(WireError::from_bytes, (input,), read),
        read matches Ok(x) && call_ensures(WireError::into_rpc_error, (x,), g),
    ensures
        match *e {
            RpcError::UnknownMethod(_)
            | RpcError::VersionMismatch { .. }
            | RpcError::InvalidMethodName(_)
            | RpcError::MalformedFrame(_)
            | RpcError::Handler(_) => same_error(*e, g),
            RpcError::Codec(c) => g matches RpcError::Handler(s) && text@ == "codec error: "@
                + s@.skip("server codec error: "@.len() as int) && "server codec error: "@.is_prefix_of(s@),
            _ => g matches RpcError::Handler(s) && s@ == text@,
        },
{
    match *e {
        RpcError::UnknownMethod(_)
        | RpcError::VersionMismatch { .. }
        | RpcError::InvalidMethodName(_)
        | RpcError::MalformedFrame(_)
        | RpcError::Handler(_) => {
            error_survives_wire(e@);
            views_of_errors_are_faithful(*e, g);
        },
        RpcError::Codec(c) => {
            codec_error_becomes_handler(c);
            let (p, t) = ("server codec error: "@, codec_error_text(c));
            assert((p + t).skip(p.len() as int) =~= t);
            assert((p + t).subrange(0, p.len() as int) =~= p);
        },
        _ => {
            internal_error_becomes_handler(e@);
        },
    }
}

/// A codec error becomes the error that carries it, and every error can be shown, sent and
/// read.
pub proof fn errors_take_every_input(
    c: CodecError,
    r: RpcError,
    e: &RpcError,
    w: WireError,
    b: &[u8],
)
    requires
        call_ensures(<RpcError as From<CodecError>>::from, (c,), r),
    ensures
        r == RpcError::Codec(c),
        call_requires(RpcError::to_string, (e,)),
        call_requires(WireError::from_rpc_error, (e,)),
        call_requires(WireError::into_rpc_error, (w,)),
        call_requires(WireError::to_bytes, (&w,)),
        call_requires(WireError::from_bytes, (b,)),
{
}

} // verus!
