//! Laws on datagrams and their sessions.
use vstd::prelude::*;

use crate::context::{fresh_ids_are_not_nil, NodeId, RpcContext};
use crate::datagram::{datagram_reaches_its_session, DatagramDispatcher};
use crate::error::{RpcError, RpcResult};
use crate::laws::pieces::{base_128, lemma_one_number, one_number};
use crate::transport::ALPN_NERW_DATAGRAM_1_0_0;
use crate::varint::{lemma_varint_run_is, varint};

verus! {

/// A session that is free can be given a handler, whatever its number; the number of
/// sessions then grows by one. A session that has a handler keeps it, and the attempt is
/// refused with its number. No other session is touched.
pub proof fn sessions_are_registered_once(
    d: &mut DatagramDispatcher,
    stream_id: u64,
    handler: u64,
    r: RpcResult<()>,
    before: &DatagramDispatcher,
    after: &DatagramDispatcher,
    count: usize,
    counted: usize,
    other: u64,
)
    requires
        call_ensures(DatagramDispatcher::register, (d, stream_id, handler), r),
        *before == *old(d),
        *after == *final(d),
        call_ensures(DatagramDispatcher::registered_count, (before,), count),
        call_ensures(DatagramDispatcher::registered_count, (after,), counted),
        other != stream_id,
    ensures
        before@.dom().contains(stream_id) ==> {
            &&& r matches Err(RpcError::DatagramStreamIdCollision { stream_id: s }) && s
                == stream_id
            &&& after@[stream_id] == before@[stream_id]
            &&& counted == count
        },
        !before@.dom().contains(stream_id) ==> {
            &&& r is Ok
            &&& after@[stream_id] == handler
            &&& counted == count + 1
        },
        after@.dom().contains(stream_id),
        after@.dom().contains(other) <==> before@.dom().contains(other),
        after@[other] == before@[other],
        after.limit() == before.limit(),
{
}

/// Taking a session out hands back its handler, lowers the number of sessions by one, and
/// touches no other session; taking out what is not there changes nothing.
pub proof fn sessions_are_taken_out(
    d: &mut DatagramDispatcher,
    stream_id: u64,
    r: Option<u64>,
    before: &DatagramDispatcher,
    after: &DatagramDispatcher,
    count: usize,
    counted: usize,
    other: u64,
)
    requires
        call_ensures(DatagramDispatcher::unregister, (d, stream_id), r),
        *before == *old(d),
        *after == *final(d),
        call_ensures(DatagramDispatcher::registered_count, (before,), count),
        call_ensures(DatagramDispatcher::registered_count, (after,), counted),
        other != stream_id,
    ensures
        before@.dom().contains(stream_id) ==> r == Some(before@[stream_id]) && counted == count - 1,
        !before@.dom().contains(stream_id) ==> r is None && counted == count,
        !after@.dom().contains(stream_id),
        after@.dom().contains(other) <==> before@.dom().contains(other),
        after@[other] == before@[other],
        after.limit() == before.limit(),
{
}

/// A dispatcher begins without sessions, with the limit that it was given or 1024.
pub proof fn dispatchers_begin_empty(
    plain: DatagramDispatcher,
    max: usize,
    limited: DatagramDispatcher,
    cap: usize,
    limit: usize,
    count: usize,
)
    requires
        call_ensures(DatagramDispatcher::new, (), plain),
        call_ensures(DatagramDispatcher::with_max_in_flight, (max,), limited),
        call_ensures(DatagramDispatcher::max_in_flight, (&plain,), cap),
        call_ensures(DatagramDispatcher::max_in_flight, (&limited,), limit),
        call_ensures(DatagramDispatcher::registered_count, (&plain,), count),
    ensures
        cap == 1024,
        limit == max,
        count == 0,
        0 < max <= usize::MAX / 8 ==> call_requires(
            DatagramDispatcher::with_max_in_flight,
            (max,),
        ),
        forall|id: u64| !(#[trigger] plain@.dom().contains(id)),
        forall|id: u64| !(#[trigger] limited@.dom().contains(id)),
{
}

/// A datagram `[stream-id | payload]` goes to the handler of its session with all of the
/// payload; without such a handler the error names the stream-id.
pub proof fn datagrams_reach_their_sessions<'a>(
    d: &DatagramDispatcher,
    stream_id: u64,
    payload: Seq<u8>,
    frame: &'a [u8],
    r: RpcResult<(u64, &'a [u8])>,
)
    requires
        frame@ == varint(stream_id as nat) + payload,
        call_ensures(DatagramDispatcher::dispatch, (d, frame), r),
    ensures
        d@.dom().contains(stream_id) ==> (r matches Ok((h, p)) && h == d@[stream_id] && p@
            == payload),
        !d@.dom().contains(stream_id) ==> (r matches Err(
            RpcError::DatagramStreamIdUnknown { stream_id: s },
        ) && s == stream_id),
{
    datagram_reaches_its_session(d@, stream_id, payload);
}

/// A stream-id is taken from its digits, also where they could be fewer.
pub proof fn stream_ids_are_taken_from_their_digits<'a>(
    d: &DatagramDispatcher,
    digits: Seq<u8>,
    payload: Seq<u8>,
    stream_id: u64,
    frame: &'a [u8],
    r: RpcResult<(u64, &'a [u8])>,
)
    requires
        one_number(digits),
        digits.len() < 10 || (digits.len() == 10 && digits[9] <= 1),
        stream_id == base_128(digits),
        frame@ == digits + payload,
        call_ensures(DatagramDispatcher::dispatch, (d, frame), r),
    ensures
        d@.dom().contains(stream_id) ==> (r matches Ok((h, p)) && h == d@[stream_id] && p@
            == payload),
        !d@.dom().contains(stream_id) ==> (r matches Err(
            RpcError::DatagramStreamIdUnknown { stream_id: s },
        ) && s == stream_id),
{
    lemma_one_number(digits, payload);
}

/// A datagram that ends before its stream-id does is refused with its length, and one whose
/// stream-id has more than 64 bits as malformed.
pub proof fn bad_datagrams_are_refused<'a>(
    d: &DatagramDispatcher,
    frame: &'a [u8],
    run: nat,
    r: RpcResult<(u64, &'a [u8])>,
)
    requires
        run <= frame@.len(),
        forall|i: int| 0 <= i < run ==> #[trigger] frame@[i] >= 128,
        run < frame@.len() ==> frame@[run as int] < 128 && (run > 9 || (run == 9 && frame@[9]
            > 1)),
        call_ensures(DatagramDispatcher::dispatch, (d, frame), r),
    ensures
        run == frame@.len() ==> (r matches Err(RpcError::DatagramTooShort { len }) && len
            == frame@.len()),
        run < frame@.len() ==> (r matches Err(RpcError::MalformedFrame(s)) && s@
            == "leb128 read stream-id: "@
            + "The number being read is larger than can be represented"@),
{
    lemma_varint_run_is(frame@, run);
    assert(frame@.len() == frame.len());
}

/// The context of a datagram names the peer and the protocol `nerw/datagram/1.0.0`, and
/// nothing else.
pub proof fn contexts_of_datagrams(peer: NodeId, r: RpcContext)
    requires
        call_ensures(DatagramDispatcher::build_context, (peer,), r),
    ensures
        r.peer.node_id@ == peer@,
        r.peer.alpn@ == seq![
            0x6eu8, 0x65, 0x72, 0x77, 0x2f, 0x64, 0x61, 0x74, 0x61, 0x67, 0x72, 0x61, 0x6d, 0x2f,
            0x31, 0x2e, 0x30, 0x2e, 0x30,
        ],
        r.peer.connection_id == 0 && r.peer.stream_id == 0 && r.peer.handshake_at_ms == 0,
        r.timing.received_at_ms == 0 && r.timing.received_at_monotonic_ns == 0
            && r.timing.frame_decode_duration_us == 0,
        r.peer.tls_cipher_suite is None && r.auth is None && r.session is None,
        r.tracing.parent_span_id is None && r.tracing.correlation_id is None
            && !r.tracing.sampled,
        r.tracing.trace_id != 0 && r.tracing.span_id != 0,
{
    assert(ALPN_NERW_DATAGRAM_1_0_0@ =~= seq![
        0x6eu8, 0x65, 0x72, 0x77, 0x2f, 0x64, 0x61, 0x74, 0x61, 0x67, 0x72, 0x61, 0x6d, 0x2f,
        0x31, 0x2e, 0x30, 0x2e, 0x30,
    ]);
    fresh_ids_are_not_nil(r.tracing);
}

/// Every session can be registered and taken out, and every datagram dispatched.
pub proof fn datagrams_take_every_input(
    d: &mut DatagramDispatcher,
    e: &DatagramDispatcher,
    stream_id: u64,
    handler: u64,
    frame: &[u8],
    standard: DatagramDispatcher,
)
    requires
        call_ensures(<DatagramDispatcher as Default>::default, (), standard),
    ensures
        call_requires(DatagramDispatcher::register, (d, stream_id, handler)),
        call_requires(DatagramDispatcher::unregister, (d, stream_id)),
        call_requires(DatagramDispatcher::dispatch, (e, frame)),
        standard.limit() == 1024,
        forall|id: u64| !(#[trigger] standard@.dom().contains(id)),
{
}

} // verus!
