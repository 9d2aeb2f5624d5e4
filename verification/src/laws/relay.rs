//! Laws on the frames and vouchers of the relay protocol.
use vstd::prelude::*;

use crate::codec::{lemma_raw_roundtrip, lemma_u32_roundtrip};
use crate::context::{is_public_key, NodeId};
use crate::laws::contexts::ascii;
use crate::laws::frames::{sized, sized_text};
use crate::transit::{
    decode_frame, ed25519_accepts, ed25519_signature, encode_frame, lemma_big_endian_value,
    trailing_bytes_refused, transit_frame_bytes, truncated_frame_refused, voucher_roundtrip,
    Capabilities, ConnectOutcome, Limits, ReserveOutcome, TransitError, TransitFrame, Voucher,
    DEFAULT_RESERVATION_TTL_SECS,
};
use crate::varint::varint;

verus! {

/// The bytes of a voucher, written out: relay, peer, expiry, signature.
pub open spec fn voucher_layout(v: Voucher) -> Seq<u8> {
    v.relay_node_id@ + v.peer_node_id@ + varint(v.expire_unix_secs as nat) + v.signature@
}

/// Whether two vouchers say the same.
pub open spec fn same_voucher(v: Voucher, w: Voucher) -> bool {
    &&& v.relay_node_id@ == w.relay_node_id@
    &&& v.peer_node_id@ == w.peer_node_id@
    &&& v.expire_unix_secs == w.expire_unix_secs
    &&& v.signature@ == w.signature@
}

/// The number of an error.
pub open spec fn error_number(e: TransitError) -> u8 {
    match e {
        TransitError::WhitelistRejected => 0,
        TransitError::CapacityFull => 1,
        TransitError::VoucherExpired => 2,
        TransitError::VoucherInvalidSig => 3,
        TransitError::TargetNotFound => 4,
        TransitError::MalformedFrame => 5,
        TransitError::UnexpectedFrame => 6,
    }
}

/// The bytes of a frame, written out.
pub open spec fn relay_layout(f: TransitFrame) -> Seq<u8> {
    match f {
        TransitFrame::Hello { peer_id, capabilities } => seq![0u8] + peer_id@ + varint(
            capabilities.reserved_flags as nat,
        ),
        TransitFrame::ReserveRequest { reservee_id, signature } => seq![1u8] + reservee_id@
            + sized(signature@),
        TransitFrame::ReserveResponse(ReserveOutcome::Granted { voucher, limits }) => seq![2u8, 0u8]
            + voucher_layout(voucher) + varint(limits.max_circuit_bytes as nat) + varint(
            limits.max_circuit_duration_secs as nat,
        ),
        TransitFrame::ReserveResponse(ReserveOutcome::Denied(e)) => seq![2u8, 1u8, error_number(e)],
        TransitFrame::ConnectRequest { target_id, voucher } => seq![3u8] + target_id@ + (
        match voucher {
            None => seq![0u8],
            Some(v) => seq![1u8] + voucher_layout(v),
        }),
        TransitFrame::ConnectResponse(ConnectOutcome::Granted) => seq![4u8, 0u8],
        TransitFrame::ConnectResponse(ConnectOutcome::Denied(e)) => seq![4u8, 1u8, error_number(e)],
        TransitFrame::Bye { reason } => seq![5u8] + (match reason {
            None => seq![0u8],
            Some(s) => seq![1u8] + sized_text(s@),
        }),
    }
}

/// Whether two frames say the same.
pub open spec fn same_relay_frame(f: TransitFrame, g: TransitFrame) -> bool {
    match f {
        TransitFrame::Hello { peer_id, capabilities } => {
            g matches TransitFrame::Hello { peer_id: p, capabilities: c } && peer_id@ == p@
                && capabilities == c
        },
        TransitFrame::ReserveRequest { reservee_id, signature } => {
            g matches TransitFrame::ReserveRequest { reservee_id: r, signature: s } && reservee_id@
                == r@ && signature@ == s@
        },
        TransitFrame::ReserveResponse(ReserveOutcome::Granted { voucher, limits }) => {
            g matches TransitFrame::ReserveResponse(
                ReserveOutcome::Granted { voucher: v, limits: l },
            ) && same_voucher(voucher, v) && limits == l
        },
        TransitFrame::ReserveResponse(ReserveOutcome::Denied(e)) => {
            g matches TransitFrame::ReserveResponse(ReserveOutcome::Denied(d)) && e == d
        },
        TransitFrame::ConnectRequest { target_id, voucher } => {
            g matches TransitFrame::ConnectRequest { target_id: t, voucher: w } && target_id@ == t@
                && match voucher {
                None => w is None,
                Some(v) => w matches Some(x) && same_voucher(v, x),
            }
        },
        TransitFrame::ConnectResponse(o) => g matches TransitFrame::ConnectResponse(p) && o == p,
        TransitFrame::Bye { reason } => g matches TransitFrame::Bye { reason: r } && match reason {
            None => r is None,
            Some(s) => r matches Some(t) && s@ == t@,
        },
    }
}

proof fn lemma_small(n: u8)
    requires
        n < 128,
    ensures
        varint(n as nat) == seq![n],
{
    assert(varint(n as nat) =~= seq![n]);
}

/// The bytes of a frame are those written out.
pub proof fn lemma_relay_layout(f: TransitFrame)
    ensures
        transit_frame_bytes(f@) == relay_layout(f),
{
    lemma_small(0);
    lemma_small(1);
    lemma_small(2);
    lemma_small(3);
    lemma_small(4);
    lemma_small(5);
    lemma_small(6);
    assert(transit_frame_bytes(f@) =~= relay_layout(f));
}

/// A frame is written as the bytes written out, and read back from them.
pub proof fn relay_frames_read_back(
    f: &TransitFrame,
    b: Result<Vec<u8>, TransitError>,
    input: &[u8],
    r: Result<TransitFrame, TransitError>,
)
    requires
        call_ensures(encode_frame, (f,), b),
        input@ == relay_layout(*f),
        call_ensures(decode_frame, (input,), r),
    ensures
        b matches Ok(bytes) && bytes@ == relay_layout(*f),
        r matches Ok(g) && same_relay_frame(*f, g),
{
    lemma_relay_layout(*f);
}

/// A frame that is cut short, or has anything behind it, is refused.
pub proof fn inexact_relay_frames_are_refused(
    f: &TransitFrame,
    b: Result<Vec<u8>, TransitError>,
    k: nat,
    rest: Seq<u8>,
    cut: &[u8],
    long: &[u8],
    r: Result<TransitFrame, TransitError>,
    s: Result<TransitFrame, TransitError>,
)
    requires
        call_ensures(encode_frame, (f,), b),
        k < relay_layout(*f).len(),
        cut@ == relay_layout(*f).take(k as int),
        rest.len() > 0,
        long@ == relay_layout(*f) + rest,
        call_ensures(decode_frame, (cut,), r),
        call_ensures(decode_frame, (long,), s),
    ensures
        r matches Err(TransitError::MalformedFrame),
        s matches Err(TransitError::MalformedFrame),
{
    lemma_relay_layout(*f);
    truncated_frame_refused(f@, k);
    trailing_bytes_refused(f@, rest);
}

/// A frame of an unknown kind is refused.
pub proof fn unknown_relay_frames_are_refused(
    kind: u32,
    rest: Seq<u8>,
    input: &[u8],
    r: Result<TransitFrame, TransitError>,
)
    requires
        kind > 5,
        input@ == varint(kind as nat) + rest,
        call_ensures(decode_frame, (input,), r),
    ensures
        r matches Err(TransitError::MalformedFrame),
{
    lemma_u32_roundtrip(kind, rest);
}

/// An introduction is taken if and only if what it names is a key.
pub proof fn introductions_need_a_key(
    key: Seq<u8>,
    flags: u32,
    input: &[u8],
    r: Result<TransitFrame, TransitError>,
)
    requires
        key.len() == 32,
        input@ == seq![0u8] + key + varint(flags as nat),
        call_ensures(decode_frame, (input,), r),
    ensures
        r is Ok <==> is_public_key(key),
        r matches Ok(f) ==> (f matches TransitFrame::Hello { peer_id, capabilities } && peer_id@
            == key && capabilities.reserved_flags == flags),
{
    lemma_small(0);
    let tail = varint(flags as nat) + seq![];
    assert(input@ =~= varint(0) + (key + tail));
    lemma_u32_roundtrip(0, key + tail);
    lemma_raw_roundtrip(key, tail);
    lemma_u32_roundtrip(flags, seq![]);
}

/// A voucher is written as relay, peer, expiry and signature, and read back.
pub proof fn vouchers_read_back(
    v: &Voucher,
    b: Vec<u8>,
    rest: Seq<u8>,
    input: &[u8],
    r: Option<Voucher>,
)
    requires
        call_ensures(Voucher::to_bytes, (v,), b),
        input@ == b@ + rest,
        call_ensures(Voucher::from_bytes, (input,), r),
    ensures
        b@ == voucher_layout(*v),
        r matches Some(w) && same_voucher(*v, w),
{
    voucher_roundtrip(v@, rest);
}

/// What is signed is `nerw/transit/voucher/v1`, the relay's key, the peer's key and the
/// expiry as eight bytes, the highest first.
pub proof fn signed_bytes_name_everything(
    v: &Voucher,
    relay: &[u8; 32],
    peer: &[u8; 32],
    r: Vec<u8>,
)
    requires
        call_ensures(Voucher::signing_bytes, (v,), r),
        call_ensures(NodeId::as_bytes, (&v.relay_node_id,), relay),
        call_ensures(NodeId::as_bytes, (&v.peer_node_id,), peer),
    ensures
        r@.len() == 95,
        r@.take(23) == ascii("nerw/transit/voucher/v1"@),
        r@.subrange(23, 55) == relay@,
        r@.subrange(55, 87) == peer@,
        v.expire_unix_secs == r@[87] * 0x100_0000_0000_0000 + r@[88] * 0x1_0000_0000_0000 + r@[89]
            * 0x100_0000_0000 + r@[90] * 0x1_0000_0000 + r@[91] * 0x100_0000 + r@[92] * 0x1_0000
            + r@[93] * 0x100 + r@[94],
{
    reveal_strlit("nerw/transit/voucher/v1");
    assert(r@.take(23) =~= ascii("nerw/transit/voucher/v1"@));
    assert(r@.subrange(23, 55) =~= relay@);
    assert(r@.subrange(55, 87) =~= peer@);
    lemma_big_endian_value(v.expire_unix_secs);
}

/// A voucher verifies if and only if it names the relay and the relay's key accepts its
/// signature on the signed bytes; otherwise its signature is invalid.
pub proof fn vouchers_verify(
    v: &Voucher,
    key: &NodeId,
    message: Vec<u8>,
    r: Result<(), TransitError>,
    accepted: bool,
    j: Result<(), TransitError>,
)
    requires
        call_ensures(Voucher::signing_bytes, (v,), message),
        call_ensures(Voucher::verify, (v, key), r),
        call_ensures(Voucher::judge, (v, key, accepted), j),
    ensures
        r is Ok <==> v.relay_node_id@ == key@ && ed25519_accepts(key@, message@, v.signature@),
        r is Err ==> r == Err::<(), TransitError>(TransitError::VoucherInvalidSig),
        j is Ok <==> v.relay_node_id@ == key@ && accepted,
        j is Err ==> j == Err::<(), TransitError>(TransitError::VoucherInvalidSig),
{
}

/// A voucher that a relay signed names the relay, the peer and the expiry it was asked for,
/// and verifies under the relay's key and no other.
pub proof fn signed_vouchers_verify(
    secret: &[u8; 32],
    relay: &NodeId,
    peer: NodeId,
    expire: u64,
    v: Voucher,
    key: &NodeId,
    r: Result<(), TransitError>,
)
    requires
        call_ensures(NodeId::from_secret, (secret,), *relay),
        call_ensures(Voucher::sign, (secret, peer, expire), v),
        call_ensures(Voucher::verify, (&v, key), r),
    ensures
        v.relay_node_id@ == relay@,
        v.peer_node_id@ == peer@,
        v.expire_unix_secs == expire,
        r is Ok <==> key@ == relay@,
{
}

/// A voucher is void from its expiry on, and not before.
pub proof fn vouchers_expire(v: &Voucher, now: u64, r: bool)
    requires
        call_ensures(Voucher::is_expired, (v, now), r),
    ensures
        now < v.expire_unix_secs ==> !r,
        now >= v.expire_unix_secs ==> r,
{
}

/// How an error of the relay reads.
pub proof fn relay_errors_read(e: &TransitError, r: String)
    requires
        call_ensures(TransitError::to_string, (e,), r),
    ensures
        r@ == (match *e {
            TransitError::WhitelistRejected => "caller is not in the relay's whitelist"@,
            TransitError::CapacityFull => "relay reservation table is full"@,
            TransitError::VoucherExpired => "voucher expiry is in the past"@,
            TransitError::VoucherInvalidSig => "voucher signature does not verify"@,
            TransitError::TargetNotFound => "no active reservation for the requested target"@,
            TransitError::MalformedFrame => "frame failed to decode"@,
            TransitError::UnexpectedFrame => "frame is valid but unexpected in current state"@,
        }),
{
}

/// What is read holds keys wherever it names a peer.
pub proof fn read_frames_name_keys(
    input: &[u8],
    r: Result<TransitFrame, TransitError>,
    v: Option<Voucher>,
)
    requires
        call_ensures(decode_frame, (input,), r),
        call_ensures(Voucher::from_bytes, (input,), v),
    ensures
        r matches Ok(f) ==> match f {
            TransitFrame::Hello { peer_id, .. } => is_public_key(peer_id@),
            TransitFrame::ReserveRequest { reservee_id, .. } => is_public_key(reservee_id@),
            TransitFrame::ReserveResponse(ReserveOutcome::Granted { voucher, .. }) => {
                is_public_key(voucher.relay_node_id@) && is_public_key(voucher.peer_node_id@)
            },
            TransitFrame::ConnectRequest { target_id, voucher } => is_public_key(target_id@) && (
            voucher matches Some(w) ==> is_public_key(w.relay_node_id@) && is_public_key(
                w.peer_node_id@,
            )),
            _ => true,
        },
        r matches Err(e) ==> e is MalformedFrame,
        v matches Some(w) ==> is_public_key(w.relay_node_id@) && is_public_key(w.peer_node_id@),
{
}

/// An answer with an unknown verdict or an unknown error is refused.
pub proof fn unknown_outcomes_are_refused(
    kind: u8,
    verdict: u32,
    number: u32,
    rest: Seq<u8>,
    strange: &[u8],
    denied: &[u8],
    r: Result<TransitFrame, TransitError>,
    s: Result<TransitFrame, TransitError>,
)
    requires
        kind == 2 || kind == 4,
        verdict > 1,
        number > 6,
        strange@ == seq![kind] + (varint(verdict as nat) + rest),
        denied@ == seq![kind] + (seq![1u8] + (varint(number as nat) + rest)),
        call_ensures(decode_frame, (strange,), r),
        call_ensures(decode_frame, (denied,), s),
    ensures
        r matches Err(TransitError::MalformedFrame),
        s matches Err(TransitError::MalformedFrame),
{
    lemma_small(kind);
    lemma_small(1);
    let x = varint(verdict as nat) + rest;
    let y = varint(number as nat) + rest;
    lemma_u32_roundtrip(kind as u32, x);
    lemma_u32_roundtrip(verdict, rest);
    lemma_u32_roundtrip(kind as u32, seq![1u8] + y);
    lemma_u32_roundtrip(1, y);
    lemma_u32_roundtrip(number, rest);
}

/// A farewell or a request for a circuit whose option is neither 0 nor 1 is refused.
pub proof fn bad_options_are_refused(
    target: Seq<u8>,
    option: u8,
    rest: Seq<u8>,
    farewell: &[u8],
    request: &[u8],
    r: Result<TransitFrame, TransitError>,
    s: Result<TransitFrame, TransitError>,
)
    requires
        target.len() == 32,
        option > 1,
        farewell@ == seq![5u8] + (seq![option] + rest),
        request@ == seq![3u8] + (target + (seq![option] + rest)),
        call_ensures(decode_frame, (farewell,), r),
        call_ensures(decode_frame, (request,), s),
    ensures
        r matches Err(TransitError::MalformedFrame),
        s matches Err(TransitError::MalformedFrame),
{
    lemma_small(3);
    lemma_small(5);
    let x = seq![option] + rest;
    assert(x[0] == option);
    lemma_u32_roundtrip(5, x);
    lemma_u32_roundtrip(3, target + x);
    lemma_raw_roundtrip(target, x);
}

/// A signed voucher carries the relay's signature on the signed bytes.
pub proof fn vouchers_are_signed(
    secret: &[u8; 32],
    peer: NodeId,
    expire: u64,
    v: Voucher,
    message: Vec<u8>,
)
    requires
        call_ensures(Voucher::sign, (secret, peer, expire), v),
        call_ensures(Voucher::signing_bytes, (&v,), message),
    ensures
        v.signature@ == ed25519_signature(secret@, message@),
        ed25519_accepts(v.relay_node_id@, message@, v.signature@),
{
}

/// No capability is set and no limit imposed unless said otherwise; a slot is kept for ten
/// minutes.
pub proof fn relay_defaults(c: Capabilities, l: Limits)
    requires
        call_ensures(<Capabilities as Default>::default, (), c),
        call_ensures(<Limits as Default>::default, (), l),
    ensures
        c.reserved_flags == 0,
        l.max_circuit_bytes == 0 && l.max_circuit_duration_secs == 0,
        DEFAULT_RESERVATION_TTL_SECS == 600,
{
}

/// Every frame can be written, every buffer read, and every voucher signed and judged.
pub proof fn relays_take_every_input(
    f: &TransitFrame,
    b: &[u8],
    v: &Voucher,
    key: &NodeId,
    secret: &[u8; 32],
    peer: NodeId,
    n: u64,
)
    ensures
        call_requires(encode_frame, (f,)),
        call_requires(decode_frame, (b,)),
        call_requires(Voucher::to_bytes, (v,)),
        call_requires(Voucher::from_bytes, (b,)),
        call_requires(Voucher::sign, (secret, peer, n)),
        call_requires(Voucher::verify, (v, key)),
        call_requires(Voucher::is_expired, (v, n)),
{
}

} // verus!
