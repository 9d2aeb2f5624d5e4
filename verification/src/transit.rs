//! Frames and vouchers of the peer-as-relay protocol.
//!
//! A relay promises a peer, by a signed voucher, to keep a slot for it until a given time.
//! Both the peer that reserves the slot and the one that dials through it talk to the relay
//! in the frames defined here; the first frame on a stream says which of the two is
//! talking.
use vstd::arithmetic::div_mod::lemma_div_denominator;
use vstd::prelude::*;
use vstd::utf8::encode_utf8;

use crate::codec::{
    bytes_field, flag_field, get_bytes, get_flag, get_raw32, get_raw64, get_text, get_u32, get_u64,
    lemma_bytes_more, lemma_bytes_roundtrip, lemma_flag_more, lemma_flag_roundtrip,
    lemma_raw_more, lemma_raw_roundtrip, lemma_text_roundtrip, lemma_u32_roundtrip,
    lemma_u64_roundtrip, lemma_varint_more, put_bytes, put_flag, put_text, put_u32, put_u64,
    take_bytes, take_flag, take_raw, take_text, take_u32, take_u64, text_field, CodecError,
};
use crate::context::{is_public_key, public_key_of, NodeId};
use crate::varint::varint;

verus! {

/// `nerw/transit/voucher/v1`: what every signed message begins with, so that a signature on
/// a voucher is a signature on nothing else.
pub const VOUCHER_DOMAIN_TAG: &'static [u8; 23] = &[
    0x6e, 0x65, 0x72, 0x77, 0x2f, 0x74, 0x72, 0x61, 0x6e, 0x73, 0x69, 0x74,
    0x2f, 0x76, 0x6f, 0x75, 0x63, 0x68, 0x65, 0x72, 0x2f, 0x76, 0x31,
];

/// How long a slot is kept, in seconds.
pub const DEFAULT_RESERVATION_TTL_SECS: u64 = 600;

/// What a peer can do.
#[derive(Clone, Copy, Debug, PartialEq, Eq, Hash, Structural)]
pub struct Capabilities {
    /// Flags; none is in use.
    pub reserved_flags: u32,
}

impl Default for Capabilities {
    fn default() -> (r: Self)
        ensures
            r == (Capabilities { reserved_flags: 0 }),
    {
        Capabilities { reserved_flags: 0 }
    }
}

/// What a relay allows on one circuit; 0 means no limit.
#[derive(Clone, Copy, Debug, PartialEq, Eq, Hash, Structural)]
pub struct Limits {
    /// Bytes that the relay forwards.
    pub max_circuit_bytes: u64,
    /// Seconds that the circuit stays open.
    pub max_circuit_duration_secs: u64,
}

impl Default for Limits {
    fn default() -> (r: Self)
        ensures
            r == (Limits { max_circuit_bytes: 0, max_circuit_duration_secs: 0 }),
    {
        Limits { max_circuit_bytes: 0, max_circuit_duration_secs: 0 }
    }
}

/// Why a relay refuses, or a frame is of no use.
#[derive(Clone, Copy, Debug, PartialEq, Eq, Hash, Structural)]
#[non_exhaustive]
pub enum TransitError {
    /// The caller is not allowed.
    WhitelistRejected,
    /// The relay keeps as many slots as it can.
    CapacityFull,
    /// The voucher has expired.
    VoucherExpired,
    /// The voucher was not signed by the relay.
    VoucherInvalidSig,
    /// Nobody has a slot under the target's identity.
    TargetNotFound,
    /// The frame could not be decoded.
    MalformedFrame,
    /// The frame came at the wrong moment.
    UnexpectedFrame,
}

/// How an error reads.
pub open spec fn transit_error_text(e: TransitError) -> Seq<char> {
    match e {
        TransitError::WhitelistRejected => "caller is not in the relay's whitelist"@,
        TransitError::CapacityFull => "relay reservation table is full"@,
        TransitError::VoucherExpired => "voucher expiry is in the past"@,
        TransitError::VoucherInvalidSig => "voucher signature does not verify"@,
        TransitError::TargetNotFound => "no active reservation for the requested target"@,
        TransitError::MalformedFrame => "frame failed to decode"@,
        TransitError::UnexpectedFrame => "frame is valid but unexpected in current state"@,
    }
}

/// The number of an error on the wire.
pub open spec fn transit_error_tag(e: TransitError) -> u32 {
    match e {
        TransitError::WhitelistRejected => 0,
        TransitError::CapacityFull => 1,
        TransitError::VoucherExpired => 2,
        TransitError::VoucherInvalidSig => 3,
        TransitError::TargetNotFound => 4,
        TransitError::MalformedFrame => 5,
        TransitError::UnexpectedFrame => 6,
    }
}

impl TransitError {
    /// Renders the error as a message.
    pub fn to_string(&self) -> (r: String)
        ensures
            r@ == transit_error_text(*self),
    {
        let text = match *self {
            TransitError::WhitelistRejected => "caller is not in the relay's whitelist",
            TransitError::CapacityFull => "relay reservation table is full",
            TransitError::VoucherExpired => "voucher expiry is in the past",
            TransitError::VoucherInvalidSig => "voucher signature does not verify",
            TransitError::TargetNotFound => "no active reservation for the requested target",
            TransitError::MalformedFrame => "frame failed to decode",
            TransitError::UnexpectedFrame => "frame is valid but unexpected in current state",
        };
        text.to_owned()
    }

    /// The number of the error on the wire.
    fn tag(&self) -> (r: u32)
        ensures
            r == transit_error_tag(*self),
    {
        match *self {
            TransitError::WhitelistRejected => 0,
            TransitError::CapacityFull => 1,
            TransitError::VoucherExpired => 2,
            TransitError::VoucherInvalidSig => 3,
            TransitError::TargetNotFound => 4,
            TransitError::MalformedFrame => 5,
            TransitError::UnexpectedFrame => 6,
        }
    }
}

/// The signature that an Ed25519 secret gives a message.
pub uninterp spec fn ed25519_signature(secret: Seq<u8>, message: Seq<u8>) -> Seq<u8>;

/// Whether an Ed25519 public key accepts a signature on a message.
pub uninterp spec fn ed25519_accepts(key: Seq<u8>, message: Seq<u8>, signature: Seq<u8>) -> bool;

/// `iroh::SecretKey::sign` with the key made by `iroh::SecretKey::from_bytes`: the signature
/// on the message, which the public key of the secret accepts. Beyond that, only that it is
/// a function of secret and message is claimed.
#[verifier::external_body]
fn ed25519_sign(secret: &[u8; 32], message: &[u8]) -> (r: [u8; 64])
    ensures
        r@ == ed25519_signature(secret@, message@),
        ed25519_accepts(public_key_of(secret@), message@, r@),
{
    iroh::SecretKey::from_bytes(secret).sign(message).to_bytes()
}

/// `iroh::PublicKey::verify`, on a key that `iroh::PublicKey::from_bytes` takes; bytes that
/// are no key accept nothing. Only that the answer is a function of key, message and
/// signature is claimed.
#[verifier::external_body]
fn ed25519_verify(key: &[u8; 32], message: &[u8], signature: &[u8; 64]) -> (r: bool)
    ensures
        r == ed25519_accepts(key@, message@, signature@),
{
    match iroh::PublicKey::from_bytes(key) {
        Ok(key) => key.verify(message, &iroh::Signature::from_bytes(signature)).is_ok(),
        Err(_) => false,
    }
}

/// A relay's signed promise to keep a slot for a peer.
#[derive(Clone, Debug, PartialEq, Eq)]
pub struct Voucher {
    /// The relay.
    pub relay_node_id: NodeId,
    /// The peer that the slot is kept for.
    pub peer_node_id: NodeId,
    /// From when on the voucher is void, in seconds since 1970.
    pub expire_unix_secs: u64,
    /// The relay's signature on [`Voucher::signing_bytes`].
    pub signature: [u8; 64],
}

/// A [`Voucher`] with its keys and signature taken as bytes.
#[verifier::ext_equal]
pub struct VoucherView {
    pub relay: Seq<u8>,
    pub peer: Seq<u8>,
    pub expire: u64,
    pub signature: Seq<u8>,
}

impl View for Voucher {
    type V = VoucherView;

    open spec fn view(&self) -> VoucherView {
        VoucherView {
            relay: self.relay_node_id@,
            peer: self.peer_node_id@,
            expire: self.expire_unix_secs,
            signature: self.signature@,
        }
    }
}

/// The eight bytes of a number, most significant first.
pub open spec fn big_endian(v: u64) -> Seq<u8> {
    seq![
        (v / 0x100_0000_0000_0000) as u8,
        (v / 0x1_0000_0000_0000 % 256) as u8,
        (v / 0x100_0000_0000 % 256) as u8,
        (v / 0x1_0000_0000 % 256) as u8,
        (v / 0x100_0000 % 256) as u8,
        (v / 0x1_0000 % 256) as u8,
        (v / 0x100 % 256) as u8,
        (v % 256) as u8,
    ]
}

/// What a relay signs: the tag, its own key, the key of the peer and the expiry.
pub open spec fn signing_message(relay: Seq<u8>, peer: Seq<u8>, expire: u64) -> Seq<u8> {
    VOUCHER_DOMAIN_TAG@ + relay + peer + big_endian(expire)
}

/// Whether `v` names the relay with the given key and carries its signature.
pub open spec fn voucher_verifies(v: VoucherView, key: Seq<u8>) -> bool {
    &&& v.relay == key
    &&& ed25519_accepts(key, signing_message(v.relay, v.peer, v.expire), v.signature)
}

impl Voucher {
    /// Signs a voucher. It verifies under the key of the relay.
    pub fn sign(relay_secret: &[u8; 32], peer_node_id: NodeId, expire_unix_secs: u64) -> (r: Self)
        ensures
            r@.relay == public_key_of(relay_secret@),
            r.peer_node_id == peer_node_id,
            r.expire_unix_secs == expire_unix_secs,
            r@.signature == ed25519_signature(
                relay_secret@,
                signing_message(r@.relay, r@.peer, r@.expire),
            ),
            voucher_verifies(r@, public_key_of(relay_secret@)),
    {
        let relay_node_id = NodeId::from_secret(relay_secret);
        let message = Voucher::compose_signing_bytes(
            &relay_node_id,
            &peer_node_id,
            expire_unix_secs,
        );
        let signature = ed25519_sign(relay_secret, message.as_slice());
        Voucher { relay_node_id, peer_node_id, expire_unix_secs, signature }
    }

    /// Checks that the voucher names the given relay and carries its signature.
    pub fn verify(&self, relay_pub_key: &NodeId) -> (r: Result<(), TransitError>)
        ensures
            r == (if voucher_verifies(self@, relay_pub_key@) {
                Ok::<(), TransitError>(())
            } else {
                Err(TransitError::VoucherInvalidSig)
            }),
    {
        let message = self.signing_bytes();
        let accepted = ed25519_verify(
            relay_pub_key.as_bytes(),
            message.as_slice(),
            &self.signature,
        );
        self.judge(relay_pub_key, accepted)
    }

    /// The verdict on a voucher, given whether the relay's key accepts its signature.
    pub fn judge(&self, relay_pub_key: &NodeId, accepted: bool) -> (r: Result<(), TransitError>)
        ensures
            r == (if self@.relay == relay_pub_key@ && accepted {
                Ok::<(), TransitError>(())
            } else {
                Err(TransitError::VoucherInvalidSig)
            }),
    {
        if self.relay_node_id.same(relay_pub_key) && accepted {
            Ok(())
        } else {
            Err(TransitError::VoucherInvalidSig)
        }
    }

    /// Whether the voucher is void at the given time.
    pub fn is_expired(&self, now_unix_secs: u64) -> (r: bool)
        ensures
            r == (now_unix_secs >= self.expire_unix_secs),
    {
        now_unix_secs >= self.expire_unix_secs
    }

    /// What the relay signed.
    pub fn signing_bytes(&self) -> (r: Vec<u8>)
        ensures
            r@ == signing_message(self@.relay, self@.peer, self@.expire),
    {
        Voucher::compose_signing_bytes(
            &self.relay_node_id,
            &self.peer_node_id,
            self.expire_unix_secs,
        )
    }

    /// What a relay signs for a peer.
    fn compose_signing_bytes(
        relay_node_id: &NodeId,
        peer_node_id: &NodeId,
        expire_unix_secs: u64,
    ) -> (r: Vec<u8>)
        ensures
            r@ == signing_message(relay_node_id@, peer_node_id@, expire_unix_secs),
    {
        let mut buf: Vec<u8> = vstd::slice::slice_to_vec(VOUCHER_DOMAIN_TAG);
        buf.extend_from_slice(relay_node_id.as_bytes());
        buf.extend_from_slice(peer_node_id.as_bytes());
        let v: u64 = expire_unix_secs;
        buf.push((v / 0x100_0000_0000_0000) as u8);
        buf.push((v / 0x1_0000_0000_0000 % 256) as u8);
        buf.push((v / 0x100_0000_0000 % 256) as u8);
        buf.push((v / 0x1_0000_0000 % 256) as u8);
        buf.push((v / 0x100_0000 % 256) as u8);
        buf.push((v / 0x1_0000 % 256) as u8);
        buf.push((v / 0x100 % 256) as u8);
        buf.push((v % 256) as u8);
        assert(buf@ =~= signing_message(relay_node_id@, peer_node_id@, expire_unix_secs));
        buf
    }
}

/// A number is put together again from its eight bytes.
pub proof fn lemma_big_endian_value(v: u64)
    ensures
        ({
            let b = big_endian(v);
            v == b[0] * 0x100_0000_0000_0000 + b[1] * 0x1_0000_0000_0000 + b[2] * 0x100_0000_0000
                + b[3] * 0x1_0000_0000 + b[4] * 0x100_0000 + b[5] * 0x1_0000 + b[6] * 0x100 + b[7]
        }),
{
    let x = v as int;
    lemma_div_denominator(x, 0x100, 256);
    lemma_div_denominator(x, 0x1_0000, 256);
    lemma_div_denominator(x, 0x100_0000, 256);
    lemma_div_denominator(x, 0x1_0000_0000, 256);
    lemma_div_denominator(x, 0x100_0000_0000, 256);
    lemma_div_denominator(x, 0x1_0000_0000_0000, 256);
}

/// A number is determined by its eight bytes.
proof fn lemma_big_endian_injective(a: u64, b: u64)
    requires
        big_endian(a) == big_endian(b),
    ensures
        a == b,
{
    lemma_big_endian_value(a);
    lemma_big_endian_value(b);
}

/// Vouchers that differ in relay, peer or expiry have different signed messages, so a
/// voucher altered in any of the three needs a new signature.
pub proof fn signed_messages_differ(
    relay: Seq<u8>,
    peer: Seq<u8>,
    expire: u64,
    other_relay: Seq<u8>,
    other_peer: Seq<u8>,
    other_expire: u64,
)
    requires
        relay.len() == 32,
        peer.len() == 32,
        other_relay.len() == 32,
        other_peer.len() == 32,
        signing_message(relay, peer, expire) == signing_message(
            other_relay,
            other_peer,
            other_expire,
        ),
    ensures
        relay == other_relay,
        peer == other_peer,
        expire == other_expire,
{
    let a = signing_message(relay, peer, expire);
    let b = signing_message(other_relay, other_peer, other_expire);
    let n = VOUCHER_DOMAIN_TAG@.len() as int;
    assert(relay =~= a.subrange(n, n + 32));
    assert(other_relay =~= b.subrange(n, n + 32));
    assert(peer =~= a.subrange(n + 32, n + 64));
    assert(other_peer =~= b.subrange(n + 32, n + 64));
    assert(big_endian(expire) =~= a.subrange(n + 64, n + 72));
    assert(big_endian(other_expire) =~= b.subrange(n + 64, n + 72));
    lemma_big_endian_injective(expire, other_expire);
}

/// Every signed message begins with the tag and has the same length.
pub proof fn signed_message_layout(relay: Seq<u8>, peer: Seq<u8>, expire: u64)
    requires
        relay.len() == 32,
        peer.len() == 32,
    ensures
        VOUCHER_DOMAIN_TAG@.is_prefix_of(signing_message(relay, peer, expire)),
        signing_message(relay, peer, expire).len() == VOUCHER_DOMAIN_TAG@.len() + 72,
{
    assert(signing_message(relay, peer, expire).subrange(0, VOUCHER_DOMAIN_TAG@.len() as int)
        =~= VOUCHER_DOMAIN_TAG@);
}

/// A voucher does not verify under the key of another relay than it names.
pub proof fn wrong_relay_never_verifies(v: VoucherView, key: Seq<u8>)
    requires
        v.relay != key,
    ensures
        !voucher_verifies(v, key),
{
}

/// Answer to a request for a slot.
#[derive(Clone, Debug, PartialEq, Eq)]
pub enum ReserveOutcome {
    /// The slot is kept.
    Granted {
        /// The relay's promise.
        voucher: Voucher,
        /// What the relay allows on a circuit to the slot.
        limits: Limits,
    },
    /// The slot is not kept.
    Denied(TransitError),
}

/// Answer to a request for a circuit.
#[derive(Clone, Copy, Debug, PartialEq, Eq, Structural)]
pub enum ConnectOutcome {
    /// The circuit is up; what follows on the stream is relayed.
    Granted,
    /// The circuit is refused.
    Denied(TransitError),
}

/// One frame of the protocol.
#[derive(Clone, Debug, PartialEq, Eq)]
#[non_exhaustive]
pub enum TransitFrame {
    /// Introduction of either side.
    Hello {
        /// Who is talking.
        peer_id: NodeId,
        /// What it can do.
        capabilities: Capabilities,
    },
    /// Request for a slot.
    ReserveRequest {
        /// Who the slot is for.
        reservee_id: NodeId,
        /// Signature on the wish; not looked into here.
        signature: Vec<u8>,
    },
    /// Answer to a request for a slot.
    ReserveResponse(ReserveOutcome),
    /// Request for a circuit.
    ConnectRequest {
        /// Whom to connect to.
        target_id: NodeId,
        /// The relay's promise to the target, if the caller has it.
        voucher: Option<Voucher>,
    },
    /// Answer to a request for a circuit.
    ConnectResponse(ConnectOutcome),
    /// No frame follows.
    Bye {
        /// Why, for people to read.
        reason: Option<String>,
    },
}

/// A [`ReserveOutcome`] with its contents taken by their views.
#[verifier::ext_equal]
pub enum ReserveOutcomeView {
    Granted { voucher: VoucherView, limits: Limits },
    Denied(TransitError),
}

impl View for ReserveOutcome {
    type V = ReserveOutcomeView;

    open spec fn view(&self) -> ReserveOutcomeView {
        match *self {
            ReserveOutcome::Granted { voucher, limits } => ReserveOutcomeView::Granted {
                voucher: voucher@,
                limits,
            },
            ReserveOutcome::Denied(e) => ReserveOutcomeView::Denied(e),
        }
    }
}

/// A [`TransitFrame`] with its contents taken by their views.
#[verifier::ext_equal]
pub enum TransitFrameView {
    Hello { peer: Seq<u8>, capabilities: Capabilities },
    ReserveRequest { reservee: Seq<u8>, signature: Seq<u8> },
    ReserveResponse(ReserveOutcomeView),
    ConnectRequest { target: Seq<u8>, voucher: Option<VoucherView> },
    ConnectResponse(ConnectOutcome),
    Bye { reason: Option<Seq<char>> },
}

impl View for TransitFrame {
    type V = TransitFrameView;

    open spec fn view(&self) -> TransitFrameView {
        match *self {
            TransitFrame::Hello { peer_id, capabilities } => TransitFrameView::Hello {
                peer: peer_id@,
                capabilities,
            },
            TransitFrame::ReserveRequest { reservee_id, signature } => {
                TransitFrameView::ReserveRequest { reservee: reservee_id@, signature: signature@ }
            },
            TransitFrame::ReserveResponse(o) => TransitFrameView::ReserveResponse(o@),
            TransitFrame::ConnectRequest { target_id, voucher } => {
                TransitFrameView::ConnectRequest {
                    target: target_id@,
                    voucher: match voucher {
                        Some(v) => Some(v@),
                        None => None,
                    },
                }
            },
            TransitFrame::ConnectResponse(o) => TransitFrameView::ConnectResponse(o),
            TransitFrame::Bye { reason } => TransitFrameView::Bye {
                reason: match reason {
                    Some(s) => Some(s@),
                    None => None,
                },
            },
        }
    }
}

/// The bytes of a voucher.
pub open spec fn voucher_bytes(v: VoucherView) -> Seq<u8> {
    v.relay + v.peer + varint(v.expire as nat) + v.signature
}

/// Reading a voucher, without a look at whether its keys are keys.
pub open spec fn take_voucher(b: Seq<u8>) -> Result<(VoucherView, Seq<u8>), CodecError> {
    match take_raw(b, 32) {
        Err(e) => Err(e),
        Ok((relay, rest)) => match take_raw(rest, 32) {
            Err(e) => Err(e),
            Ok((peer, rest)) => match take_u64(rest) {
                Err(e) => Err(e),
                Ok((expire, rest)) => match take_raw(rest, 64) {
                    Err(e) => Err(e),
                    Ok((signature, rest)) => Ok(
                        (VoucherView { relay, peer, expire, signature }, rest),
                    ),
                },
            },
        },
    }
}

/// Whether the keys of a voucher are keys.
pub open spec fn voucher_keys_valid(v: VoucherView) -> bool {
    is_public_key(v.relay) && is_public_key(v.peer)
}

/// The bytes of limits.
pub open spec fn limits_bytes(l: Limits) -> Seq<u8> {
    varint(l.max_circuit_bytes as nat) + varint(l.max_circuit_duration_secs as nat)
}

/// Reading limits.
pub open spec fn take_limits(b: Seq<u8>) -> Result<(Limits, Seq<u8>), CodecError> {
    match take_u64(b) {
        Err(e) => Err(e),
        Ok((max_circuit_bytes, rest)) => match take_u64(rest) {
            Err(e) => Err(e),
            Ok((max_circuit_duration_secs, rest)) => Ok(
                (Limits { max_circuit_bytes, max_circuit_duration_secs }, rest),
            ),
        },
    }
}

/// The bytes of an error.
pub open spec fn transit_error_bytes(e: TransitError) -> Seq<u8> {
    varint(transit_error_tag(e) as nat)
}

/// Reading an error; an unknown number is refused.
pub open spec fn take_transit_error(b: Seq<u8>) -> Result<(TransitError, Seq<u8>), CodecError> {
    match take_u32(b) {
        Err(e) => Err(e),
        Ok((tag, rest)) => match tag {
            0 => Ok((TransitError::WhitelistRejected, rest)),
            1 => Ok((TransitError::CapacityFull, rest)),
            2 => Ok((TransitError::VoucherExpired, rest)),
            3 => Ok((TransitError::VoucherInvalidSig, rest)),
            4 => Ok((TransitError::TargetNotFound, rest)),
            5 => Ok((TransitError::MalformedFrame, rest)),
            6 => Ok((TransitError::UnexpectedFrame, rest)),
            _ => Err(CodecError::SerdeDeCustom),
        },
    }
}

/// The bytes of an answer to a request for a slot: tag 0, voucher and limits, or tag 1 and
/// the error.
pub open spec fn reserve_outcome_bytes(o: ReserveOutcomeView) -> Seq<u8> {
    match o {
        ReserveOutcomeView::Granted { voucher, limits } => varint(0) + voucher_bytes(voucher)
            + limits_bytes(limits),
        ReserveOutcomeView::Denied(e) => varint(1) + transit_error_bytes(e),
    }
}

/// Reading an answer to a request for a slot.
pub open spec fn take_reserve_outcome(b: Seq<u8>) -> Result<
    (ReserveOutcomeView, Seq<u8>),
    CodecError,
> {
    match take_u32(b) {
        Err(e) => Err(e),
        Ok((tag, rest)) => if tag == 0 {
            match take_voucher(rest) {
                Err(e) => Err(e),
                Ok((voucher, rest)) => match take_limits(rest) {
                    Err(e) => Err(e),
                    Ok((limits, rest)) => Ok((ReserveOutcomeView::Granted { voucher, limits }, rest)),
                },
            }
        } else if tag == 1 {
            match take_transit_error(rest) {
                Err(e) => Err(e),
                Ok((e, rest)) => Ok((ReserveOutcomeView::Denied(e), rest)),
            }
        } else {
            Err(CodecError::SerdeDeCustom)
        },
    }
}

/// The bytes of an answer to a request for a circuit: tag 0, or tag 1 and the error.
pub open spec fn connect_outcome_bytes(o: ConnectOutcome) -> Seq<u8> {
    match o {
        ConnectOutcome::Granted => varint(0),
        ConnectOutcome::Denied(e) => varint(1) + transit_error_bytes(e),
    }
}

/// Reading an answer to a request for a circuit.
pub open spec fn take_connect_outcome(b: Seq<u8>) -> Result<
    (ConnectOutcome, Seq<u8>),
    CodecError,
> {
    match take_u32(b) {
        Err(e) => Err(e),
        Ok((tag, rest)) => if tag == 0 {
            Ok((ConnectOutcome::Granted, rest))
        } else if tag == 1 {
            match take_transit_error(rest) {
                Err(e) => Err(e),
                Ok((e, rest)) => Ok((ConnectOutcome::Denied(e), rest)),
            }
        } else {
            Err(CodecError::SerdeDeCustom)
        },
    }
}

/// The bytes of an optional voucher.
pub open spec fn optional_voucher_bytes(voucher: Option<VoucherView>) -> Seq<u8> {
    match voucher {
        None => flag_field(false),
        Some(v) => flag_field(true) + voucher_bytes(v),
    }
}

/// The bytes of an optional text.
pub open spec fn optional_text_bytes(reason: Option<Seq<char>>) -> Seq<u8> {
    match reason {
        None => flag_field(false),
        Some(s) => flag_field(true) + text_field(s),
    }
}

/// The bytes of a frame: the number of its kind, then its fields.
pub open spec fn transit_frame_bytes(f: TransitFrameView) -> Seq<u8> {
    match f {
        TransitFrameView::Hello { peer, capabilities } => varint(0) + peer + varint(
            capabilities.reserved_flags as nat,
        ),
        TransitFrameView::ReserveRequest { reservee, signature } => varint(1) + reservee
            + bytes_field(signature),
        TransitFrameView::ReserveResponse(o) => varint(2) + reserve_outcome_bytes(o),
        TransitFrameView::ConnectRequest { target, voucher } => varint(3) + target
            + optional_voucher_bytes(voucher),
        TransitFrameView::ConnectResponse(o) => varint(4) + connect_outcome_bytes(o),
        TransitFrameView::Bye { reason } => varint(5) + optional_text_bytes(reason),
    }
}

/// Reading an introduction behind its number.
pub open spec fn take_hello(b: Seq<u8>) -> Result<(TransitFrameView, Seq<u8>), CodecError> {
    match take_raw(b, 32) {
        Err(e) => Err(e),
        Ok((peer, rest)) => match take_u32(rest) {
            Err(e) => Err(e),
            Ok((reserved_flags, rest)) => Ok(
                (
                    TransitFrameView::Hello { peer, capabilities: Capabilities { reserved_flags } },
                    rest,
                ),
            ),
        },
    }
}

/// Reading a request for a slot behind its number.
pub open spec fn take_reserve_request(b: Seq<u8>) -> Result<
    (TransitFrameView, Seq<u8>),
    CodecError,
> {
    match take_raw(b, 32) {
        Err(e) => Err(e),
        Ok((reservee, rest)) => match take_bytes(rest) {
            Err(e) => Err(e),
            Ok((signature, rest)) => Ok(
                (TransitFrameView::ReserveRequest { reservee, signature }, rest),
            ),
        },
    }
}

/// Reading a request for a circuit behind its number.
pub open spec fn take_connect_request(b: Seq<u8>) -> Result<
    (TransitFrameView, Seq<u8>),
    CodecError,
> {
    match take_raw(b, 32) {
        Err(e) => Err(e),
        Ok((target, rest)) => match take_flag(rest, CodecError::DeserializeBadOption) {
            Err(e) => Err(e),
            Ok((some, rest)) => if some {
                match take_voucher(rest) {
                    Err(e) => Err(e),
                    Ok((v, rest)) => Ok(
                        (TransitFrameView::ConnectRequest { target, voucher: Some(v) }, rest),
                    ),
                }
            } else {
                Ok((TransitFrameView::ConnectRequest { target, voucher: None }, rest))
            },
        },
    }
}

/// Reading a farewell behind its number.
pub open spec fn take_bye(b: Seq<u8>) -> Result<(TransitFrameView, Seq<u8>), CodecError> {
    match take_flag(b, CodecError::DeserializeBadOption) {
        Err(e) => Err(e),
        Ok((some, rest)) => if some {
            match take_text(rest) {
                Err(e) => Err(e),
                Ok((s, rest)) => Ok((TransitFrameView::Bye { reason: Some(s) }, rest)),
            }
        } else {
            Ok((TransitFrameView::Bye { reason: None }, rest))
        },
    }
}

/// Reading a frame of a given kind behind its number; an unknown number is refused.
pub open spec fn take_frame_of_kind(kind: u32, b: Seq<u8>) -> Result<
    (TransitFrameView, Seq<u8>),
    CodecError,
> {
    match kind {
        0 => take_hello(b),
        1 => take_reserve_request(b),
        2 => match take_reserve_outcome(b) {
            Err(e) => Err(e),
            Ok((o, rest)) => Ok((TransitFrameView::ReserveResponse(o), rest)),
        },
        3 => take_connect_request(b),
        4 => match take_connect_outcome(b) {
            Err(e) => Err(e),
            Ok((o, rest)) => Ok((TransitFrameView::ConnectResponse(o), rest)),
        },
        5 => take_bye(b),
        _ => Err(CodecError::SerdeDeCustom),
    }
}

/// Reading a frame, without a look at whether its keys are keys.
pub open spec fn take_transit_frame(b: Seq<u8>) -> Result<(TransitFrameView, Seq<u8>), CodecError> {
    match take_u32(b) {
        Err(e) => Err(e),
        Ok((kind, rest)) => take_frame_of_kind(kind, rest),
    }
}

/// Whether all keys in a frame are keys.
pub open spec fn frame_keys_valid(f: TransitFrameView) -> bool {
    match f {
        TransitFrameView::Hello { peer, .. } => is_public_key(peer),
        TransitFrameView::ReserveRequest { reservee, .. } => is_public_key(reservee),
        TransitFrameView::ReserveResponse(ReserveOutcomeView::Granted { voucher, .. }) => {
            voucher_keys_valid(voucher)
        },
        TransitFrameView::ConnectRequest { target, voucher } => is_public_key(target) && (
        voucher matches Some(v) ==> voucher_keys_valid(v)),
        _ => true,
    }
}

/// The frame that `b` is, if it is one: the bytes are one frame and nothing more, and its
/// keys are keys.
pub open spec fn transit_frame_of(b: Seq<u8>) -> Option<TransitFrameView> {
    match take_transit_frame(b) {
        Ok((f, rest)) => if rest.len() == 0 && frame_keys_valid(f) {
            Some(f)
        } else {
            None
        },
        Err(_) => None,
    }
}

/// Appends an identity.
fn put_node_id(buf: &mut Vec<u8>, id: &NodeId)
    ensures
        final(buf)@ == old(buf)@ + id@,
        is_public_key(id@),
        id@.len() == 32,
{
    buf.extend_from_slice(id.as_bytes());
}

/// Appends a voucher.
fn put_voucher(buf: &mut Vec<u8>, v: &Voucher)
    ensures
        final(buf)@ == old(buf)@ + voucher_bytes(v@),
        voucher_shaped(v@),
        voucher_keys_valid(v@),
{
    put_node_id(buf, &v.relay_node_id);
    put_node_id(buf, &v.peer_node_id);
    put_u64(buf, v.expire_unix_secs);
    buf.extend_from_slice(&v.signature);
    assert(buf@ =~= old(buf)@ + voucher_bytes(v@));
}

/// Appends an answer to a request for a slot.
fn put_reserve_outcome(buf: &mut Vec<u8>, o: &ReserveOutcome)
    ensures
        final(buf)@ == old(buf)@ + reserve_outcome_bytes(o@),
        frame_shaped(TransitFrameView::ReserveResponse(o@)),
{
    match o {
        ReserveOutcome::Granted { voucher, limits } => {
            put_u32(buf, 0);
            put_voucher(buf, voucher);
            put_u64(buf, limits.max_circuit_bytes);
            put_u64(buf, limits.max_circuit_duration_secs);
        },
        ReserveOutcome::Denied(e) => {
            put_u32(buf, 1);
            put_u32(buf, e.tag());
        },
    }
    assert(buf@ =~= old(buf)@ + reserve_outcome_bytes(o@));
}

/// Encodes a frame. [`decode_frame`] reads the frame back from the bytes.
pub fn encode_frame(frame: &TransitFrame) -> (r: Result<Vec<u8>, TransitError>)
    ensures
        frame_shaped(frame@),
        r matches Ok(b) && {
            &&& b@ == transit_frame_bytes(frame@)
            &&& transit_frame_of(b@) == Some(frame@)
        },
{
    let mut buf: Vec<u8> = Vec::new();
    match frame {
        TransitFrame::Hello { peer_id, capabilities } => {
            put_u32(&mut buf, 0);
            put_node_id(&mut buf, peer_id);
            put_u32(&mut buf, capabilities.reserved_flags);
        },
        TransitFrame::ReserveRequest { reservee_id, signature } => {
            put_u32(&mut buf, 1);
            put_node_id(&mut buf, reservee_id);
            put_bytes(&mut buf, signature.as_slice());
        },
        TransitFrame::ReserveResponse(o) => {
            put_u32(&mut buf, 2);
            put_reserve_outcome(&mut buf, o);
        },
        TransitFrame::ConnectRequest { target_id, voucher } => {
            put_u32(&mut buf, 3);
            put_node_id(&mut buf, target_id);
            match voucher {
                None => {
                    put_flag(&mut buf, false);
                },
                Some(v) => {
                    put_flag(&mut buf, true);
                    put_voucher(&mut buf, v);
                },
            }
        },
        TransitFrame::ConnectResponse(o) => {
            put_u32(&mut buf, 4);
            match o {
                ConnectOutcome::Granted => {
                    put_u32(&mut buf, 0);
                },
                ConnectOutcome::Denied(e) => {
                    put_u32(&mut buf, 1);
                    put_u32(&mut buf, e.tag());
                },
            }
        },
        TransitFrame::Bye { reason } => {
            put_u32(&mut buf, 5);
            match reason {
                None => {
                    put_flag(&mut buf, false);
                },
                Some(s) => {
                    put_flag(&mut buf, true);
                    put_text(&mut buf, s.as_str());
                },
            }
        },
    }
    assert(buf@ =~= transit_frame_bytes(frame@));
    proof {
        transit_frame_roundtrip(frame@);
    }
    Ok(buf)
}

/// Reads an identity.
fn get_node_id(b: &[u8]) -> (r: Option<(NodeId, &[u8])>)
    ensures
        match r {
            Some((id, rest)) => {
                &&& take_raw(b@, 32) == Ok::<(Seq<u8>, Seq<u8>), CodecError>((id@, rest@))
                &&& is_public_key(id@)
            },
            None => take_raw(b@, 32) matches Ok((key, _)) ==> !is_public_key(key),
        },
{
    match get_raw32(b) {
        Err(_) => None,
        Ok((key, rest)) => match NodeId::from_bytes(&key) {
            Some(id) => Some((id, rest)),
            None => None,
        },
    }
}

/// Reads a voucher.
fn get_voucher(b: &[u8]) -> (r: Option<(Voucher, &[u8])>)
    ensures
        match r {
            Some((v, rest)) => {
                &&& take_voucher(b@) == Ok::<(VoucherView, Seq<u8>), CodecError>((v@, rest@))
                &&& voucher_keys_valid(v@)
            },
            None => take_voucher(b@) matches Ok((v, _)) ==> !voucher_keys_valid(v),
        },
{
    let (relay_node_id, rest) = match get_node_id(b) {
        Some(taken) => taken,
        None => return None,
    };
    let (peer_node_id, rest) = match get_node_id(rest) {
        Some(taken) => taken,
        None => return None,
    };
    let (expire_unix_secs, rest) = match get_u64(rest) {
        Ok(taken) => taken,
        Err(_) => return None,
    };
    match get_raw64(rest) {
        Ok((signature, rest)) => Some(
            (Voucher { relay_node_id, peer_node_id, expire_unix_secs, signature }, rest),
        ),
        Err(_) => None,
    }
}

/// Reads an error.
fn get_transit_error(b: &[u8]) -> (r: Option<(TransitError, &[u8])>)
    ensures
        match r {
            Some((e, rest)) => take_transit_error(b@) == Ok::<(TransitError, Seq<u8>), CodecError>(
                (e, rest@),
            ),
            None => take_transit_error(b@) is Err,
        },
{
    match get_u32(b) {
        Err(_) => None,
        Ok((tag, rest)) => match tag {
            0 => Some((TransitError::WhitelistRejected, rest)),
            1 => Some((TransitError::CapacityFull, rest)),
            2 => Some((TransitError::VoucherExpired, rest)),
            3 => Some((TransitError::VoucherInvalidSig, rest)),
            4 => Some((TransitError::TargetNotFound, rest)),
            5 => Some((TransitError::MalformedFrame, rest)),
            6 => Some((TransitError::UnexpectedFrame, rest)),
            _ => None,
        },
    }
}

/// Whether `r` is what reading `taken` is to give, keys checked.
spec fn admitted(
    r: Option<(TransitFrame, &[u8])>,
    taken: Result<(TransitFrameView, Seq<u8>), CodecError>,
) -> bool {
    match r {
        Some((f, rest)) => {
            &&& taken == Ok::<(TransitFrameView, Seq<u8>), CodecError>((f@, rest@))
            &&& frame_keys_valid(f@)
        },
        None => taken matches Ok((f, _)) ==> !frame_keys_valid(f),
    }
}

/// Reads an introduction behind its number.
fn get_hello(b: &[u8]) -> (r: Option<(TransitFrame, &[u8])>)
    ensures
        admitted(r, take_hello(b@)),
{
    match get_node_id(b) {
        None => None,
        Some((peer_id, rest)) => match get_u32(rest) {
            Err(_) => None,
            Ok((reserved_flags, rest)) => Some(
                (
                    TransitFrame::Hello { peer_id, capabilities: Capabilities { reserved_flags } },
                    rest,
                ),
            ),
        },
    }
}

/// Reads a request for a slot behind its number.
fn get_reserve_request(b: &[u8]) -> (r: Option<(TransitFrame, &[u8])>)
    ensures
        admitted(r, take_reserve_request(b@)),
{
    match get_node_id(b) {
        None => None,
        Some((reservee_id, rest)) => match get_bytes(rest) {
            Err(_) => None,
            Ok((signature, rest)) => Some(
                (TransitFrame::ReserveRequest { reservee_id, signature }, rest),
            ),
        },
    }
}

/// Reads an answer to a request for a slot.
fn get_reserve_outcome(b: &[u8]) -> (r: Option<(ReserveOutcome, &[u8])>)
    ensures
        match r {
            Some((o, rest)) => {
                &&& take_reserve_outcome(b@) == Ok::<(ReserveOutcomeView, Seq<u8>), CodecError>(
                    (o@, rest@),
                )
                &&& frame_keys_valid(TransitFrameView::ReserveResponse(o@))
            },
            None => take_reserve_outcome(b@) matches Ok((o, _)) ==> !frame_keys_valid(
                TransitFrameView::ReserveResponse(o),
            ),
        },
{
    let (tag, rest) = match get_u32(b) {
        Ok(taken) => taken,
        Err(_) => return None,
    };
    if tag == 0 {
        let (voucher, rest) = match get_voucher(rest) {
            Some(taken) => taken,
            None => return None,
        };
        let (max_circuit_bytes, rest) = match get_u64(rest) {
            Ok(taken) => taken,
            Err(_) => return None,
        };
        match get_u64(rest) {
            Err(_) => None,
            Ok((max_circuit_duration_secs, rest)) => {
                let limits = Limits { max_circuit_bytes, max_circuit_duration_secs };
                Some((ReserveOutcome::Granted { voucher, limits }, rest))
            },
        }
    } else if tag == 1 {
        match get_transit_error(rest) {
            Some((e, rest)) => Some((ReserveOutcome::Denied(e), rest)),
            None => None,
        }
    } else {
        None
    }
}

/// Reads an answer to a request for a circuit.
fn get_connect_outcome(b: &[u8]) -> (r: Option<(ConnectOutcome, &[u8])>)
    ensures
        match r {
            Some((o, rest)) => take_connect_outcome(b@) == Ok::<
                (ConnectOutcome, Seq<u8>),
                CodecError,
            >((o, rest@)),
            None => take_connect_outcome(b@) is Err,
        },
{
    match get_u32(b) {
        Err(_) => None,
        Ok((tag, rest)) => if tag == 0 {
            Some((ConnectOutcome::Granted, rest))
        } else if tag == 1 {
            match get_transit_error(rest) {
                Some((e, rest)) => Some((ConnectOutcome::Denied(e), rest)),
                None => None,
            }
        } else {
            None
        },
    }
}

/// Reads a request for a circuit behind its number.
fn get_connect_request(b: &[u8]) -> (r: Option<(TransitFrame, &[u8])>)
    ensures
        admitted(r, take_connect_request(b@)),
{
    let (target_id, rest) = match get_node_id(b) {
        Some(taken) => taken,
        None => return None,
    };
    match get_flag(rest, CodecError::DeserializeBadOption) {
        Err(_) => None,
        Ok((some, rest)) => if some {
            match get_voucher(rest) {
                Some((v, rest)) => Some(
                    (TransitFrame::ConnectRequest { target_id, voucher: Some(v) }, rest),
                ),
                None => None,
            }
        } else {
            Some((TransitFrame::ConnectRequest { target_id, voucher: None }, rest))
        },
    }
}

/// Reads a farewell behind its number.
fn get_bye(b: &[u8]) -> (r: Option<(TransitFrame, &[u8])>)
    ensures
        admitted(r, take_bye(b@)),
{
    match get_flag(b, CodecError::DeserializeBadOption) {
        Err(_) => None,
        Ok((some, rest)) => if some {
            match get_text(rest) {
                Ok((s, rest)) => Some((TransitFrame::Bye { reason: Some(s) }, rest)),
                Err(_) => None,
            }
        } else {
            Some((TransitFrame::Bye { reason: None }, rest))
        },
    }
}

/// Reads a frame.
fn get_transit_frame(b: &[u8]) -> (r: Option<(TransitFrame, &[u8])>)
    ensures
        admitted(r, take_transit_frame(b@)),
{
    let (tag, rest) = match get_u32(b) {
        Ok(taken) => taken,
        Err(_) => return None,
    };
    match tag {
        0 => get_hello(rest),
        1 => get_reserve_request(rest),
        2 => match get_reserve_outcome(rest) {
            Some((o, rest)) => Some((TransitFrame::ReserveResponse(o), rest)),
            None => None,
        },
        3 => get_connect_request(rest),
        4 => match get_connect_outcome(rest) {
            Some((o, rest)) => Some((TransitFrame::ConnectResponse(o), rest)),
            None => None,
        },
        5 => get_bye(rest),
        _ => None,
    }
}

/// Decodes a frame. The bytes must be one frame and nothing more.
pub fn decode_frame(bytes: &[u8]) -> (r: Result<TransitFrame, TransitError>)
    ensures
        match r {
            Ok(f) => transit_frame_of(bytes@) == Some(f@),
            Err(e) => e == TransitError::MalformedFrame && transit_frame_of(bytes@) is None,
        },
{
    match get_transit_frame(bytes) {
        Some((f, rest)) => if rest.len() == 0 {
            Ok(f)
        } else {
            Err(TransitError::MalformedFrame)
        },
        None => Err(TransitError::MalformedFrame),
    }
}

impl Voucher {
    /// The bytes of the voucher. [`Voucher::from_bytes`] reads the voucher back from them.
    pub fn to_bytes(&self) -> (r: Vec<u8>)
        ensures
            r@ == voucher_bytes(self@),
            voucher_shaped(self@),
            voucher_keys_valid(self@),
            take_voucher(r@) == Ok::<(VoucherView, Seq<u8>), CodecError>((self@, seq![])),
    {
        let mut buf: Vec<u8> = Vec::new();
        put_voucher(&mut buf, self);
        assert(buf@ =~= voucher_bytes(self@));
        assert(buf@ =~= buf@ + Seq::<u8>::empty());
        proof {
            voucher_roundtrip(self@, seq![]);
        }
        buf
    }

    /// Reads a voucher from the front of a buffer; bytes behind it are ignored.
    pub fn from_bytes(b: &[u8]) -> (r: Option<Self>)
        ensures
            match r {
                Some(v) => {
                    &&& take_voucher(b@) matches Ok((w, _)) && w == v@
                    &&& voucher_keys_valid(v@)
                },
                None => take_voucher(b@) matches Ok((w, _)) ==> !voucher_keys_valid(w),
            },
    {
        match get_voucher(b) {
            Some((v, _)) => Some(v),
            None => None,
        }
    }
}

/// Whether a voucher has keys and a signature of the right length.
pub open spec fn voucher_shaped(v: VoucherView) -> bool {
    v.relay.len() == 32 && v.peer.len() == 32 && v.signature.len() == 64
}

/// Whether a frame is one that a [`TransitFrame`] can hold: its keys are keys, keys and
/// signatures have their lengths, and its strings fit the machine's address space.
pub open spec fn frame_shaped(f: TransitFrameView) -> bool {
    &&& frame_keys_valid(f)
    &&& match f {
        TransitFrameView::Hello { peer, .. } => peer.len() == 32,
        TransitFrameView::ReserveRequest { reservee, signature } => reservee.len() == 32
            && signature.len() <= usize::MAX,
        TransitFrameView::ReserveResponse(ReserveOutcomeView::Granted { voucher, .. }) => {
            voucher_shaped(voucher)
        },
        TransitFrameView::ConnectRequest { target, voucher } => target.len() == 32 && (
        voucher matches Some(v) ==> voucher_shaped(v)),
        TransitFrameView::Bye { reason } => reason matches Some(s) ==> encode_utf8(s).len()
            <= usize::MAX,
        _ => true,
    }
}

/// A voucher that was written reads back, signature and all, whatever follows it.
pub proof fn voucher_roundtrip(v: VoucherView, rest: Seq<u8>)
    requires
        voucher_shaped(v),
    ensures
        take_voucher(voucher_bytes(v) + rest) == Ok::<(VoucherView, Seq<u8>), CodecError>(
            (v, rest),
        ),
{
    let t3 = v.signature + rest;
    let t2 = varint(v.expire as nat) + t3;
    let t1 = v.peer + t2;
    assert(voucher_bytes(v) + rest =~= v.relay + t1);
    lemma_raw_roundtrip(v.relay, t1);
    lemma_raw_roundtrip(v.peer, t2);
    lemma_u64_roundtrip(v.expire, t3);
    lemma_raw_roundtrip(v.signature, rest);
}

proof fn lemma_transit_error_roundtrip(e: TransitError, rest: Seq<u8>)
    ensures
        take_transit_error(transit_error_bytes(e) + rest) == Ok::<
            (TransitError, Seq<u8>),
            CodecError,
        >((e, rest)),
{
    lemma_u32_roundtrip(transit_error_tag(e), rest);
}

proof fn lemma_reserve_outcome_roundtrip(o: ReserveOutcomeView, rest: Seq<u8>)
    requires
        o matches ReserveOutcomeView::Granted { voucher, .. } ==> voucher_shaped(voucher),
    ensures
        take_reserve_outcome(reserve_outcome_bytes(o) + rest) == Ok::<
            (ReserveOutcomeView, Seq<u8>),
            CodecError,
        >((o, rest)),
{
    let b = reserve_outcome_bytes(o) + rest;
    match o {
        ReserveOutcomeView::Granted { voucher, limits } => {
            let t3 = varint(limits.max_circuit_duration_secs as nat) + rest;
            let t2 = varint(limits.max_circuit_bytes as nat) + t3;
            let t1 = voucher_bytes(voucher) + t2;
            assert(b =~= varint(0) + t1);
            lemma_u32_roundtrip(0, t1);
            voucher_roundtrip(voucher, t2);
            lemma_u64_roundtrip(limits.max_circuit_bytes, t3);
            lemma_u64_roundtrip(limits.max_circuit_duration_secs, rest);
        },
        ReserveOutcomeView::Denied(e) => {
            assert(b =~= varint(1) + (transit_error_bytes(e) + rest));
            lemma_u32_roundtrip(1, transit_error_bytes(e) + rest);
            lemma_transit_error_roundtrip(e, rest);
        },
    }
}

proof fn lemma_connect_outcome_roundtrip(o: ConnectOutcome, rest: Seq<u8>)
    ensures
        take_connect_outcome(connect_outcome_bytes(o) + rest) == Ok::<
            (ConnectOutcome, Seq<u8>),
            CodecError,
        >((o, rest)),
{
    match o {
        ConnectOutcome::Granted => {
            lemma_u32_roundtrip(0, rest);
        },
        ConnectOutcome::Denied(e) => {
            assert(connect_outcome_bytes(o) + rest =~= varint(1) + (transit_error_bytes(e) + rest));
            lemma_u32_roundtrip(1, transit_error_bytes(e) + rest);
            lemma_transit_error_roundtrip(e, rest);
        },
    }
}

proof fn lemma_hello_roundtrip(peer: Seq<u8>, capabilities: Capabilities, rest: Seq<u8>)
    requires
        peer.len() == 32,
    ensures
        take_hello(peer + (varint(capabilities.reserved_flags as nat) + rest)) == Ok::<
            (TransitFrameView, Seq<u8>),
            CodecError,
        >((TransitFrameView::Hello { peer, capabilities }, rest)),
{
    lemma_raw_roundtrip(peer, varint(capabilities.reserved_flags as nat) + rest);
    lemma_u32_roundtrip(capabilities.reserved_flags, rest);
}

proof fn lemma_reserve_request_roundtrip(reservee: Seq<u8>, signature: Seq<u8>, rest: Seq<u8>)
    requires
        reservee.len() == 32,
        signature.len() <= usize::MAX,
    ensures
        take_reserve_request(reservee + (bytes_field(signature) + rest)) == Ok::<
            (TransitFrameView, Seq<u8>),
            CodecError,
        >((TransitFrameView::ReserveRequest { reservee, signature }, rest)),
{
    lemma_raw_roundtrip(reservee, bytes_field(signature) + rest);
    lemma_bytes_roundtrip(signature, rest);
}

proof fn lemma_connect_request_roundtrip(
    target: Seq<u8>,
    voucher: Option<VoucherView>,
    rest: Seq<u8>,
)
    requires
        target.len() == 32,
        voucher matches Some(v) ==> voucher_shaped(v),
    ensures
        take_connect_request(target + (optional_voucher_bytes(voucher) + rest)) == Ok::<
            (TransitFrameView, Seq<u8>),
            CodecError,
        >((TransitFrameView::ConnectRequest { target, voucher }, rest)),
{
    let t = optional_voucher_bytes(voucher) + rest;
    lemma_raw_roundtrip(target, t);
    match voucher {
        None => {
            lemma_flag_roundtrip(false, CodecError::DeserializeBadOption, rest);
        },
        Some(v) => {
            assert(t =~= flag_field(true) + (voucher_bytes(v) + rest));
            lemma_flag_roundtrip(true, CodecError::DeserializeBadOption, voucher_bytes(v) + rest);
            voucher_roundtrip(v, rest);
        },
    }
}

proof fn lemma_bye_roundtrip(reason: Option<Seq<char>>, rest: Seq<u8>)
    requires
        reason matches Some(s) ==> encode_utf8(s).len() <= usize::MAX,
    ensures
        take_bye(optional_text_bytes(reason) + rest) == Ok::<
            (TransitFrameView, Seq<u8>),
            CodecError,
        >((TransitFrameView::Bye { reason }, rest)),
{
    match reason {
        None => {
            lemma_flag_roundtrip(false, CodecError::DeserializeBadOption, rest);
        },
        Some(s) => {
            let t = text_field(s) + rest;
            assert(optional_text_bytes(reason) + rest =~= flag_field(true) + t);
            lemma_flag_roundtrip(true, CodecError::DeserializeBadOption, t);
            lemma_text_roundtrip(s, rest);
        },
    }
}

/// A frame is read by the number of its kind.
proof fn lemma_frame_kind(kind: u32, t: Seq<u8>)
    ensures
        take_transit_frame(varint(kind as nat) + t) == take_frame_of_kind(kind, t),
{
    lemma_u32_roundtrip(kind, t);
}

proof fn lemma_take_hello_frame(f: TransitFrameView, rest: Seq<u8>)
    requires
        frame_shaped(f),
        f is Hello,
    ensures
        take_transit_frame(transit_frame_bytes(f) + rest) == Ok::<
            (TransitFrameView, Seq<u8>),
            CodecError,
        >((f, rest)),
{
    if let TransitFrameView::Hello { peer, capabilities } = f {
        let t = peer + (varint(capabilities.reserved_flags as nat) + rest);
        assert(transit_frame_bytes(f) + rest =~= varint(0) + t);
        lemma_frame_kind(0, t);
        lemma_hello_roundtrip(peer, capabilities, rest);
    }
}

proof fn lemma_take_reserve_request_frame(f: TransitFrameView, rest: Seq<u8>)
    requires
        frame_shaped(f),
        f is ReserveRequest,
    ensures
        take_transit_frame(transit_frame_bytes(f) + rest) == Ok::<
            (TransitFrameView, Seq<u8>),
            CodecError,
        >((f, rest)),
{
    if let TransitFrameView::ReserveRequest { reservee, signature } = f {
        let t = reservee + (bytes_field(signature) + rest);
        assert(transit_frame_bytes(f) + rest =~= varint(1) + t);
        lemma_frame_kind(1, t);
        lemma_reserve_request_roundtrip(reservee, signature, rest);
    }
}

proof fn lemma_take_reserve_response_frame(f: TransitFrameView, rest: Seq<u8>)
    requires
        frame_shaped(f),
        f is ReserveResponse,
    ensures
        take_transit_frame(transit_frame_bytes(f) + rest) == Ok::<
            (TransitFrameView, Seq<u8>),
            CodecError,
        >((f, rest)),
{
    if let TransitFrameView::ReserveResponse(o) = f {
        let t = reserve_outcome_bytes(o) + rest;
        assert(transit_frame_bytes(f) + rest =~= varint(2) + t);
        lemma_frame_kind(2, t);
        lemma_reserve_outcome_roundtrip(o, rest);
    }
}

proof fn lemma_take_connect_request_frame(f: TransitFrameView, rest: Seq<u8>)
    requires
        frame_shaped(f),
        f is ConnectRequest,
    ensures
        take_transit_frame(transit_frame_bytes(f) + rest) == Ok::<
            (TransitFrameView, Seq<u8>),
            CodecError,
        >((f, rest)),
{
    if let TransitFrameView::ConnectRequest { target, voucher } = f {
        let t = target + (optional_voucher_bytes(voucher) + rest);
        assert(transit_frame_bytes(f) + rest =~= varint(3) + t);
        lemma_frame_kind(3, t);
        lemma_connect_request_roundtrip(target, voucher, rest);
    }
}

proof fn lemma_take_connect_response_frame(f: TransitFrameView, rest: Seq<u8>)
    requires
        frame_shaped(f),
        f is ConnectResponse,
    ensures
        take_transit_frame(transit_frame_bytes(f) + rest) == Ok::<
            (TransitFrameView, Seq<u8>),
            CodecError,
        >((f, rest)),
{
    if let TransitFrameView::ConnectResponse(o) = f {
        let t = connect_outcome_bytes(o) + rest;
        assert(transit_frame_bytes(f) + rest =~= varint(4) + t);
        lemma_frame_kind(4, t);
        lemma_connect_outcome_roundtrip(o, rest);
    }
}

proof fn lemma_take_bye_frame(f: TransitFrameView, rest: Seq<u8>)
    requires
        frame_shaped(f),
        f is Bye,
    ensures
        take_transit_frame(transit_frame_bytes(f) + rest) == Ok::<
            (TransitFrameView, Seq<u8>),
            CodecError,
        >((f, rest)),
{
    if let TransitFrameView::Bye { reason } = f {
        let t = optional_text_bytes(reason) + rest;
        assert(transit_frame_bytes(f) + rest =~= varint(5) + t);
        lemma_frame_kind(5, t);
        lemma_bye_roundtrip(reason, rest);
    }
}

/// The bytes of a frame followed by others are read as that frame, and the others are left.
proof fn lemma_take_frame_roundtrip(f: TransitFrameView, rest: Seq<u8>)
    requires
        frame_shaped(f),
    ensures
        take_transit_frame(transit_frame_bytes(f) + rest) == Ok::<
            (TransitFrameView, Seq<u8>),
            CodecError,
        >((f, rest)),
{
    match f {
        TransitFrameView::Hello { .. } => lemma_take_hello_frame(f, rest),
        TransitFrameView::ReserveRequest { .. } => lemma_take_reserve_request_frame(f, rest),
        TransitFrameView::ReserveResponse(_) => lemma_take_reserve_response_frame(f, rest),
        TransitFrameView::ConnectRequest { .. } => lemma_take_connect_request_frame(f, rest),
        TransitFrameView::ConnectResponse(_) => lemma_take_connect_response_frame(f, rest),
        TransitFrameView::Bye { .. } => lemma_take_bye_frame(f, rest),
    }
}

/// A frame that [`encode_frame`] wrote is what [`decode_frame`] reads.
pub proof fn transit_frame_roundtrip(f: TransitFrameView)
    requires
        frame_shaped(f),
    ensures
        transit_frame_of(transit_frame_bytes(f)) == Some(f),
{
    lemma_take_frame_roundtrip(f, seq![]);
    assert(transit_frame_bytes(f) + Seq::<u8>::empty() =~= transit_frame_bytes(f));
}

/// A frame with anything behind it is refused.
pub proof fn trailing_bytes_refused(f: TransitFrameView, rest: Seq<u8>)
    requires
        frame_shaped(f),
        rest.len() > 0,
    ensures
        transit_frame_of(transit_frame_bytes(f) + rest) is None,
{
    lemma_take_frame_roundtrip(f, rest);
}

/// A voucher that was read is read again when more bytes follow.
proof fn lemma_voucher_more(b: Seq<u8>, more: Seq<u8>)
    ensures
        take_voucher(b) matches Ok((v, rest)) ==> take_voucher(b + more) == Ok::<
            (VoucherView, Seq<u8>),
            CodecError,
        >((v, rest + more)),
{
    lemma_raw_more(b, 32, more);
    if let Ok((_, b1)) = take_raw(b, 32) {
        lemma_raw_more(b1, 32, more);
        if let Ok((_, b2)) = take_raw(b1, 32) {
            lemma_varint_more(b2, 10, 1, more);
            if let Ok((_, b3)) = take_u64(b2) {
                lemma_raw_more(b3, 64, more);
            }
        }
    }
}

/// An answer to a request for a slot that was read is read again when more bytes follow.
proof fn lemma_reserve_outcome_more(b: Seq<u8>, more: Seq<u8>)
    ensures
        take_reserve_outcome(b) matches Ok((o, rest)) ==> take_reserve_outcome(b + more) == Ok::<
            (ReserveOutcomeView, Seq<u8>),
            CodecError,
        >((o, rest + more)),
{
    lemma_varint_more(b, 5, 15, more);
    if let Ok((_, b1)) = take_u32(b) {
        lemma_varint_more(b1, 5, 15, more);
        lemma_voucher_more(b1, more);
        if let Ok((_, b2)) = take_voucher(b1) {
            lemma_varint_more(b2, 10, 1, more);
            if let Ok((_, b3)) = take_u64(b2) {
                lemma_varint_more(b3, 10, 1, more);
            }
        }
    }
}

/// An answer to a request for a circuit that was read is read again when more bytes
/// follow.
proof fn lemma_connect_outcome_more(b: Seq<u8>, more: Seq<u8>)
    ensures
        take_connect_outcome(b) matches Ok((o, rest)) ==> take_connect_outcome(b + more) == Ok::<
            (ConnectOutcome, Seq<u8>),
            CodecError,
        >((o, rest + more)),
{
    lemma_varint_more(b, 5, 15, more);
    if let Ok((_, b1)) = take_u32(b) {
        lemma_varint_more(b1, 5, 15, more);
    }
}

/// A request for a circuit that was read is read again when more bytes follow.
proof fn lemma_connect_request_more(b: Seq<u8>, more: Seq<u8>)
    ensures
        take_connect_request(b) matches Ok((f, rest)) ==> take_connect_request(b + more) == Ok::<
            (TransitFrameView, Seq<u8>),
            CodecError,
        >((f, rest + more)),
{
    lemma_raw_more(b, 32, more);
    if let Ok((_, b1)) = take_raw(b, 32) {
        lemma_flag_more(b1, CodecError::DeserializeBadOption, more);
        if let Ok((_, b2)) = take_flag(b1, CodecError::DeserializeBadOption) {
            lemma_voucher_more(b2, more);
        }
    }
}

/// The rest of a frame that was read is read again when more bytes follow.
proof fn lemma_frame_of_kind_more(kind: u32, b: Seq<u8>, more: Seq<u8>)
    ensures
        take_frame_of_kind(kind, b) matches Ok((f, rest)) ==> take_frame_of_kind(kind, b + more)
            == Ok::<(TransitFrameView, Seq<u8>), CodecError>((f, rest + more)),
{
    match kind {
        0 => {
            lemma_raw_more(b, 32, more);
            if let Ok((_, b1)) = take_raw(b, 32) {
                lemma_varint_more(b1, 5, 15, more);
            }
        },
        1 => {
            lemma_raw_more(b, 32, more);
            if let Ok((_, b1)) = take_raw(b, 32) {
                lemma_bytes_more(b1, more);
            }
        },
        2 => lemma_reserve_outcome_more(b, more),
        3 => lemma_connect_request_more(b, more),
        4 => lemma_connect_outcome_more(b, more),
        5 => {
            lemma_flag_more(b, CodecError::DeserializeBadOption, more);
            if let Ok((_, b1)) = take_flag(b, CodecError::DeserializeBadOption) {
                lemma_bytes_more(b1, more);
            }
        },
        _ => {},
    }
}

/// A frame that is cut short anywhere is refused.
pub proof fn truncated_frame_refused(f: TransitFrameView, k: nat)
    requires
        frame_shaped(f),
        k < transit_frame_bytes(f).len(),
    ensures
        transit_frame_of(transit_frame_bytes(f).take(k as int)) is None,
{
    let whole = transit_frame_bytes(f);
    let (cut, more) = (whole.take(k as int), whole.skip(k as int));
    assert(whole =~= cut + more);
    assert(whole =~= whole + Seq::<u8>::empty());
    lemma_take_frame_roundtrip(f, seq![]);
    lemma_varint_more(cut, 5, 15, more);
    if let Ok((kind, rest)) = take_u32(cut) {
        lemma_frame_of_kind_more(kind, rest, more);
    }
}

} // verus!
