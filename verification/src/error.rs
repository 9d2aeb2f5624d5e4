//! The error type of every operation, and how each error reads.
use vstd::prelude::*;

use crate::codec::{texts, CodecError};
use crate::text::{debug_list, debug_list_text, decimal, decimal_text, join2, join3};

verus! {

/// Top-level error of an RPC operation.
#[derive(Clone, Debug, PartialEq, Eq)]
pub enum RpcError {
    /// Bytes did not decode into the expected message.
    Codec(CodecError),
    /// A frame is not built as it must be: truncated, wrong opcode and the like.
    MalformedFrame(String),
    /// No handler is registered for the requested method.
    UnknownMethod(String),
    /// A method name does not have the form `package[@version]/interface/method`.
    InvalidMethodName(String),
    /// The caller asked for a version that is not registered.
    VersionMismatch {
        /// Version the caller asked for.
        requested: String,
        /// Versions that are registered.
        available: Vec<String>,
    },
    /// A handler failed; only its message is kept.
    Handler(String),
    /// No substream to the peer could be opened.
    TransportOpenSubstream {
        /// The peer.
        node_id: String,
        /// Why it failed.
        reason: String,
    },
    /// A protocol handler could not be registered.
    TransportRegisterAlpn {
        /// The protocol.
        alpn: String,
        /// Why it failed.
        reason: String,
    },
    /// Reading from a stream failed.
    TransportRead {
        /// Why it failed.
        reason: String,
    },
    /// Writing to a stream failed.
    TransportWrite {
        /// Why it failed.
        reason: String,
    },
    /// A handler is already registered for the one-byte datagram token.
    DatagramTokenCollision {
        /// The token.
        token: u8,
    },
    /// No handler is registered for the one-byte datagram token.
    DatagramTokenUnknown {
        /// The token.
        token: u8,
    },
    /// A handler is already registered for the datagram stream-id.
    DatagramStreamIdCollision {
        /// The stream-id.
        stream_id: u64,
    },
    /// No handler is registered for the datagram stream-id.
    DatagramStreamIdUnknown {
        /// The stream-id.
        stream_id: u64,
    },
    /// A datagram ended before its stream-id did.
    DatagramTooShort {
        /// Length of the datagram.
        len: usize,
    },
    /// The server was asked to serve a second time.
    AlreadyServing,
}

/// Result of an RPC operation.
pub type RpcResult<T> = Result<T, RpcError>;

/// An [`RpcError`] with its strings taken as texts.
pub enum RpcErrorView {
    Codec(CodecError),
    MalformedFrame(Seq<char>),
    UnknownMethod(Seq<char>),
    InvalidMethodName(Seq<char>),
    VersionMismatch { requested: Seq<char>, available: Seq<Seq<char>> },
    Handler(Seq<char>),
    TransportOpenSubstream { node_id: Seq<char>, reason: Seq<char> },
    TransportRegisterAlpn { alpn: Seq<char>, reason: Seq<char> },
    TransportRead { reason: Seq<char> },
    TransportWrite { reason: Seq<char> },
    DatagramTokenCollision { token: u8 },
    DatagramTokenUnknown { token: u8 },
    DatagramStreamIdCollision { stream_id: u64 },
    DatagramStreamIdUnknown { stream_id: u64 },
    DatagramTooShort { len: usize },
    AlreadyServing,
}

impl View for RpcError {
    type V = RpcErrorView;

    open spec fn view(&self) -> RpcErrorView {
        match *self {
            RpcError::Codec(e) => RpcErrorView::Codec(e),
            RpcError::MalformedFrame(s) => RpcErrorView::MalformedFrame(s@),
            RpcError::UnknownMethod(s) => RpcErrorView::UnknownMethod(s@),
            RpcError::InvalidMethodName(s) => RpcErrorView::InvalidMethodName(s@),
            RpcError::VersionMismatch { requested, available } => RpcErrorView::VersionMismatch {
                requested: requested@,
                available: texts(available@),
            },
            RpcError::Handler(s) => RpcErrorView::Handler(s@),
            RpcError::TransportOpenSubstream { node_id, reason } => {
                RpcErrorView::TransportOpenSubstream { node_id: node_id@, reason: reason@ }
            },
            RpcError::TransportRegisterAlpn { alpn, reason } => {
                RpcErrorView::TransportRegisterAlpn { alpn: alpn@, reason: reason@ }
            },
            RpcError::TransportRead { reason } => RpcErrorView::TransportRead { reason: reason@ },
            RpcError::TransportWrite { reason } => RpcErrorView::TransportWrite {
                reason: reason@,
            },
            RpcError::DatagramTokenCollision { token } => RpcErrorView::DatagramTokenCollision {
                token,
            },
            RpcError::DatagramTokenUnknown { token } => RpcErrorView::DatagramTokenUnknown {
                token,
            },
            RpcError::DatagramStreamIdCollision { stream_id } => {
                RpcErrorView::DatagramStreamIdCollision { stream_id }
            },
            RpcError::DatagramStreamIdUnknown { stream_id } => {
                RpcErrorView::DatagramStreamIdUnknown { stream_id }
            },
            RpcError::DatagramTooShort { len } => RpcErrorView::DatagramTooShort { len },
            RpcError::AlreadyServing => RpcErrorView::AlreadyServing,
        }
    }
}

/// How a codec error reads.
pub open spec fn codec_error_text(e: CodecError) -> Seq<char> {
    match e {
        CodecError::WontImplement => "This is a feature that PostCard will never implement"@,
        CodecError::NotYetImplemented => "This is a feature that Postcard intends to support, but does not yet"@,
        CodecError::SerializeBufferFull => "The serialize buffer is full"@,
        CodecError::SerializeSeqLengthUnknown => "The length of a sequence must be known"@,
        CodecError::DeserializeUnexpectedEnd => "Hit the end of buffer, expected more data"@,
        CodecError::DeserializeBadVarint => "Found a varint that didn't terminate. Is the usize too big for this platform?"@,
        CodecError::DeserializeBadBool => "Found a bool that wasn't 0 or 1"@,
        CodecError::DeserializeBadChar => "Found an invalid unicode char"@,
        CodecError::DeserializeBadUtf8 => "Tried to parse invalid utf-8"@,
        CodecError::DeserializeBadOption => "Found an Option discriminant that wasn't 0 or 1"@,
        CodecError::DeserializeBadEnum => "Found an enum discriminant that was > u32::max_value()"@,
        CodecError::DeserializeBadEncoding => "The original data was not well encoded"@,
        CodecError::DeserializeBadCrc => "Bad CRC while deserializing"@,
        CodecError::SerdeSerCustom => "Serde Serialization Error"@,
        CodecError::SerdeDeCustom => "Serde Deserialization Error"@,
        CodecError::CollectStrError => "Error while processing `collect_str` during serialization"@,
    }
}

/// How an error reads.
pub open spec fn error_text(e: RpcErrorView) -> Seq<char> {
    match e {
        RpcErrorView::Codec(c) => "codec error: "@ + codec_error_text(c),
        RpcErrorView::MalformedFrame(s) => "malformed wire frame: "@ + s,
        RpcErrorView::UnknownMethod(s) => "unknown method: "@ + s,
        RpcErrorView::InvalidMethodName(s) => {
            "invalid method-name format: expected `package[@version]/interface/method`, got `"@ + s
                + "`"@
        },
        RpcErrorView::VersionMismatch { requested, available } => {
            "version mismatch: requested "@ + requested + ", available "@ + debug_list(available)
        },
        RpcErrorView::Handler(s) => "handler error: "@ + s,
        RpcErrorView::TransportOpenSubstream { node_id, reason } => {
            "transport: failed to open substream to peer "@ + node_id + ": "@ + reason
        },
        RpcErrorView::TransportRegisterAlpn { alpn, reason } => {
            "transport: failed to register ALPN handler '"@ + alpn + "': "@ + reason
        },
        RpcErrorView::TransportRead { reason } => "transport: read failed: "@ + reason,
        RpcErrorView::TransportWrite { reason } => "transport: write failed: "@ + reason,
        RpcErrorView::DatagramTokenCollision { token } => {
            "datagram: token "@ + decimal(token as nat) + " already registered"@
        },
        RpcErrorView::DatagramTokenUnknown { token } => {
            "datagram: token "@ + decimal(token as nat) + " not registered"@
        },
        RpcErrorView::DatagramStreamIdCollision { stream_id } => {
            "datagram: stream-id "@ + decimal(stream_id as nat) + " already registered"@
        },
        RpcErrorView::DatagramStreamIdUnknown { stream_id } => {
            "datagram: stream-id "@ + decimal(stream_id as nat) + " not registered"@
        },
        RpcErrorView::DatagramTooShort { len } => {
            "datagram: too short ("@ + decimal(len as nat)
                + " bytes), need at least 1 byte for token"@
        },
        RpcErrorView::AlreadyServing => "server is already serving"@,
    }
}

impl CodecError {
    /// Renders the error as a message.
    pub fn to_string(&self) -> (r: String)
        ensures
            r@ == codec_error_text(*self),
    {
        let text = match *self {
            CodecError::WontImplement => "This is a feature that PostCard will never implement",
            CodecError::NotYetImplemented => "This is a feature that Postcard intends to support, but does not yet",
            CodecError::SerializeBufferFull => "The serialize buffer is full",
            CodecError::SerializeSeqLengthUnknown => "The length of a sequence must be known",
            CodecError::DeserializeUnexpectedEnd => "Hit the end of buffer, expected more data",
            CodecError::DeserializeBadVarint => "Found a varint that didn't terminate. Is the usize too big for this platform?",
            CodecError::DeserializeBadBool => "Found a bool that wasn't 0 or 1",
            CodecError::DeserializeBadChar => "Found an invalid unicode char",
            CodecError::DeserializeBadUtf8 => "Tried to parse invalid utf-8",
            CodecError::DeserializeBadOption => "Found an Option discriminant that wasn't 0 or 1",
            CodecError::DeserializeBadEnum => "Found an enum discriminant that was > u32::max_value()",
            CodecError::DeserializeBadEncoding => "The original data was not well encoded",
            CodecError::DeserializeBadCrc => "Bad CRC while deserializing",
            CodecError::SerdeSerCustom => "Serde Serialization Error",
            CodecError::SerdeDeCustom => "Serde Deserialization Error",
            CodecError::CollectStrError => "Error while processing `collect_str` during serialization",
        };
        text.to_owned()
    }
}

impl RpcError {
    /// Renders the error as a message.
    pub fn to_string(&self) -> (r: String)
        ensures
            r@ == error_text(self@),
    {
        match self {
            RpcError::Codec(e) => join2("codec error: ", e.to_string().as_str()),
            RpcError::MalformedFrame(s) => join2("malformed wire frame: ", s.as_str()),
            RpcError::UnknownMethod(s) => join2("unknown method: ", s.as_str()),
            RpcError::InvalidMethodName(s) => join3(
                "invalid method-name format: expected `package[@version]/interface/method`, got `",
                s.as_str(),
                "`",
            ),
            RpcError::VersionMismatch { requested, available } => {
                let head = join3(
                    "version mismatch: requested ",
                    requested.as_str(),
                    ", available ",
                );
                join2(head.as_str(), debug_list_text(available).as_str())
            },
            RpcError::Handler(s) => join2("handler error: ", s.as_str()),
            RpcError::TransportOpenSubstream { node_id, reason } => {
                let head = join3(
                    "transport: failed to open substream to peer ",
                    node_id.as_str(),
                    ": ",
                );
                join2(head.as_str(), reason.as_str())
            },
            RpcError::TransportRegisterAlpn { alpn, reason } => {
                let head = join3(
                    "transport: failed to register ALPN handler '",
                    alpn.as_str(),
                    "': ",
                );
                join2(head.as_str(), reason.as_str())
            },
            RpcError::TransportRead { reason } => join2(
                "transport: read failed: ",
                reason.as_str(),
            ),
            RpcError::TransportWrite { reason } => join2(
                "transport: write failed: ",
                reason.as_str(),
            ),
            RpcError::DatagramTokenCollision { token } => join3(
                "datagram: token ",
                decimal_text(*token as u64).as_str(),
                " already registered",
            ),
            RpcError::DatagramTokenUnknown { token } => join3(
                "datagram: token ",
                decimal_text(*token as u64).as_str(),
                " not registered",
            ),
            RpcError::DatagramStreamIdCollision { stream_id } => join3(
                "datagram: stream-id ",
                decimal_text(*stream_id).as_str(),
                " already registered",
            ),
            RpcError::DatagramStreamIdUnknown { stream_id } => join3(
                "datagram: stream-id ",
                decimal_text(*stream_id).as_str(),
                " not registered",
            ),
            RpcError::DatagramTooShort { len } => join3(
                "datagram: too short (",
                decimal_text(*len as u64).as_str(),
                " bytes), need at least 1 byte for token",
            ),
            RpcError::AlreadyServing => "server is already serving".to_owned(),
        }
    }
}

impl From<CodecError> for RpcError {
    fn from(e: CodecError) -> (r: Self) {
        RpcError::Codec(e)
    }
}

impl vstd::std_specs::convert::FromSpecImpl<CodecError> for RpcError {
    open spec fn obeys_from_spec() -> bool {
        true
    }

    open spec fn from_spec(e: CodecError) -> Self {
        RpcError::Codec(e)
    }
}

} // verus!
