//! Routing of datagrams to the sessions they belong to.
//!
//! A datagram begins with the number of the stream that set its session up; the rest is
//! its payload. Handlers are known here by numbers that the caller gives them.
use dashmap::mapref::entry::Entry;
use dashmap::DashMap;
use vstd::prelude::*;

use crate::context::{is_fresh, NodeId, PeerMetadata, RpcContext, TimingInfo, TracingInfo};
use crate::error::{RpcError, RpcErrorView, RpcResult};
use crate::text::join2;
use crate::transport::ALPN_NERW_DATAGRAM_1_0_0;
use crate::varint::varint;
use crate::wire::{fault_text, get_varint, lemma_leb128_roundtrip, take_leb128, VarintFault};

verus! {

/// How many datagrams are handled at once unless the caller says otherwise.
pub const DEFAULT_MAX_CONCURRENT_DATAGRAMS: usize = 1024;

/// A concurrent map of the `dashmap` crate.
#[verifier::external_type_specification]
#[verifier::external_body]
#[verifier::reject_recursive_types(K)]
#[verifier::reject_recursive_types(V)]
#[verifier::reject_recursive_types(S)]
pub struct ExDashMap<K, V, S>(DashMap<K, V, S>);

/// What a map from stream-ids to handlers holds.
pub uninterp spec fn session_map(m: DashMap<u64, u64>) -> Map<u64, u64>;

/// `dashmap::DashMap::new`: an empty map.
#[verifier::external_body]
fn sessions_new() -> (r: DashMap<u64, u64>)
    ensures
        session_map(r) =~= Map::empty(),
{
    DashMap::new()
}

/// `dashmap::DashMap::entry`, with `VacantEntry::insert` on an entry that is vacant: puts
/// the value in only if the key has none, and says whether it did.
#[verifier::external_body]
fn sessions_insert_vacant(m: &mut DashMap<u64, u64>, key: u64, value: u64) -> (r: bool)
    ensures
        r == !session_map(*old(m)).dom().contains(key),
        r ==> session_map(*final(m)) == session_map(*old(m)).insert(key, value),
        !r ==> session_map(*final(m)) == session_map(*old(m)),
{
    match m.entry(key) {
        Entry::Occupied(_) => false,
        Entry::Vacant(slot) => {
            slot.insert(value);
            true
        },
    }
}

/// `dashmap::DashMap::remove`: takes the key out and hands its value back.
#[verifier::external_body]
fn sessions_remove(m: &mut DashMap<u64, u64>, key: u64) -> (r: Option<u64>)
    ensures
        session_map(*final(m)) == session_map(*old(m)).remove(key),
        r == (if session_map(*old(m)).dom().contains(key) {
            Some(session_map(*old(m))[key])
        } else {
            None
        }),
{
    m.remove(&key).map(|entry| entry.1)
}

/// `dashmap::DashMap::get`: the value of the key, copied.
#[verifier::external_body]
fn sessions_get(m: &DashMap<u64, u64>, key: u64) -> (r: Option<u64>)
    ensures
        r == (if session_map(*m).dom().contains(key) {
            Some(session_map(*m)[key])
        } else {
            None
        }),
{
    match m.get(&key) {
        Some(entry) => Some(*entry),
        None => None,
    }
}

/// `dashmap::DashMap::len`: how many keys there are.
#[verifier::external_body]
fn sessions_len(m: &DashMap<u64, u64>) -> (r: usize)
    ensures
        r == session_map(*m).len(),
{
    m.len()
}

/// Handlers of datagram sessions by stream-id.
pub struct DatagramDispatcher {
    handlers: DashMap<u64, u64>,
    max_in_flight: usize,
}

impl View for DatagramDispatcher {
    type V = Map<u64, u64>;

    closed spec fn view(&self) -> Map<u64, u64> {
        session_map(self.handlers)
    }
}

/// Where a datagram goes, given the registered handlers: a handler and the payload for it,
/// or the error.
pub open spec fn route(handlers: Map<u64, u64>, frame: Seq<u8>) -> Result<
    (u64, Seq<u8>),
    RpcErrorView,
> {
    match take_leb128(frame) {
        Err(VarintFault::Truncated) => Err(
            RpcErrorView::DatagramTooShort { len: frame.len() as usize },
        ),
        Err(VarintFault::Overflow) => Err(
            RpcErrorView::MalformedFrame(
                "leb128 read stream-id: "@ + fault_text(VarintFault::Overflow),
            ),
        ),
        Ok((stream_id, payload)) => if handlers.dom().contains(stream_id) {
            Ok((handlers[stream_id], payload))
        } else {
            Err(RpcErrorView::DatagramStreamIdUnknown { stream_id })
        },
    }
}

/// The handlers after an attempt to register one: a taken stream-id keeps the handler it
/// has.
pub open spec fn registered(m: Map<u64, u64>, stream_id: u64, handler: u64) -> Map<u64, u64> {
    if m.dom().contains(stream_id) {
        m
    } else {
        m.insert(stream_id, handler)
    }
}

impl DatagramDispatcher {
    #[verifier::type_invariant]
    spec fn inv(self) -> bool {
        session_map(self.handlers).dom().finite()
    }

    /// How many datagrams may be handled at once.
    pub closed spec fn limit(&self) -> usize {
        self.max_in_flight
    }

    /// A dispatcher without handlers and with the default limit.
    pub fn new() -> (r: Self)
        ensures
            r@ == Map::<u64, u64>::empty(),
            r.limit() == DEFAULT_MAX_CONCURRENT_DATAGRAMS,
    {
        DatagramDispatcher::with_max_in_flight(DEFAULT_MAX_CONCURRENT_DATAGRAMS)
    }

    /// A dispatcher without handlers that lets `max` datagrams be handled at once. With a
    /// limit of 0 nothing would ever be handled; the semaphore that enforces the limit
    /// takes at most an eighth of what a `usize` holds.
    pub fn with_max_in_flight(max: usize) -> (r: Self)
        requires
            0 < max <= usize::MAX / 8,
        ensures
            r@ == Map::<u64, u64>::empty(),
            r.limit() == max,
    {
        DatagramDispatcher { handlers: sessions_new(), max_in_flight: max }
    }

    /// How many datagrams may be handled at once.
    pub fn max_in_flight(&self) -> (r: usize)
        ensures
            r == self.limit(),
    {
        self.max_in_flight
    }

    /// Registers a handler for a stream-id; refused if the stream-id has one.
    pub fn register(&mut self, stream_id: u64, handler: u64) -> (r: RpcResult<()>)
        ensures
            final(self)@ == registered(old(self)@, stream_id, handler),
            final(self).limit() == old(self).limit(),
            match r {
                Ok(()) => {
                    &&& !old(self)@.dom().contains(stream_id)
                    &&& final(self)@.len() == old(self)@.len() + 1
                },
                Err(e) => {
                    &&& old(self)@.dom().contains(stream_id)
                    &&& final(self)@.len() == old(self)@.len()
                    &&& e@ == RpcErrorView::DatagramStreamIdCollision { stream_id }
                },
            },
    {
        proof {
            use_type_invariant(&*self);
            register_counts_once(self@, stream_id, handler);
        }
        let mut handlers = sessions_new();
        std::mem::swap(&mut handlers, &mut self.handlers);
        let added = sessions_insert_vacant(&mut handlers, stream_id, handler);
        self.handlers = handlers;
        if added {
            Ok(())
        } else {
            Err(RpcError::DatagramStreamIdCollision { stream_id })
        }
    }

    /// Takes the handler of a stream-id out, if it has one.
    pub fn unregister(&mut self, stream_id: u64) -> (r: Option<u64>)
        ensures
            final(self)@ == old(self)@.remove(stream_id),
            final(self).limit() == old(self).limit(),
            r == (if old(self)@.dom().contains(stream_id) {
                Some(old(self)@[stream_id])
            } else {
                None
            }),
            final(self)@.len() == old(self)@.len() - (if r is Some {
                1int
            } else {
                0
            }),
    {
        proof {
            use_type_invariant(&*self);
            unregister_counts_once(self@, stream_id);
        }
        let mut handlers = sessions_new();
        std::mem::swap(&mut handlers, &mut self.handlers);
        let removed = sessions_remove(&mut handlers, stream_id);
        self.handlers = handlers;
        removed
    }

    /// How many handlers are registered.
    pub fn registered_count(&self) -> (r: usize)
        ensures
            r == self@.len(),
            self@.dom().finite(),
    {
        proof {
            use_type_invariant(self);
        }
        sessions_len(&self.handlers)
    }

    /// Says which handler a datagram goes to, and which bytes of it.
    pub fn dispatch<'a>(&self, frame: &'a [u8]) -> (r: RpcResult<(u64, &'a [u8])>)
        ensures
            match r {
                Ok((handler, payload)) => route(self@, frame@) == Ok::<
                    (u64, Seq<u8>),
                    RpcErrorView,
                >((handler, payload@)),
                Err(e) => route(self@, frame@) == Err::<(u64, Seq<u8>), RpcErrorView>(e@),
            },
    {
        match get_varint(frame) {
            Err(VarintFault::Truncated) => Err(RpcError::DatagramTooShort { len: frame.len() }),
            Err(VarintFault::Overflow) => Err(
                RpcError::MalformedFrame(
                    join2(
                        "leb128 read stream-id: ",
                        VarintFault::Overflow.to_string().as_str(),
                    ),
                ),
            ),
            Ok((stream_id, payload)) => match sessions_get(&self.handlers, stream_id) {
                Some(handler) => Ok((handler, payload)),
                None => Err(RpcError::DatagramStreamIdUnknown { stream_id }),
            },
        }
    }

    /// The context of a datagram from `from_peer`.
    pub fn build_context(from_peer: NodeId) -> (r: RpcContext)
        ensures
            r.peer.node_id == from_peer,
            r.peer.connection_id == 0,
            r.peer.stream_id == 0,
            r.peer.alpn@ == ALPN_NERW_DATAGRAM_1_0_0@,
            r.peer.handshake_at_ms == 0,
            r.peer.tls_cipher_suite is None,
            r.timing == (TimingInfo {
                received_at_ms: 0,
                received_at_monotonic_ns: 0,
                frame_decode_duration_us: 0,
            }),
            r.auth is None,
            r.session is None,
            is_fresh(r.tracing),
    {
        RpcContext {
            peer: PeerMetadata {
                node_id: from_peer,
                connection_id: 0,
                stream_id: 0,
                alpn: vstd::slice::slice_to_vec(ALPN_NERW_DATAGRAM_1_0_0),
                handshake_at_ms: 0,
                tls_cipher_suite: None,
            },
            timing: TimingInfo::zero(),
            auth: None,
            session: None,
            tracing: TracingInfo::fresh(),
        }
    }
}

impl Default for DatagramDispatcher {
    fn default() -> (r: Self)
        ensures
            r@ == Map::<u64, u64>::empty(),
            r.limit() == DEFAULT_MAX_CONCURRENT_DATAGRAMS,
    {
        DatagramDispatcher::new()
    }
}

/// A datagram reaches the handler that is registered for its stream-id, with its payload
/// untouched; without such a handler it is refused by that stream-id.
pub proof fn datagram_reaches_its_session(m: Map<u64, u64>, stream_id: u64, payload: Seq<u8>)
    ensures
        route(m, varint(stream_id as nat) + payload) == (if m.dom().contains(stream_id) {
            Ok::<(u64, Seq<u8>), RpcErrorView>((m[stream_id], payload))
        } else {
            Err(RpcErrorView::DatagramStreamIdUnknown { stream_id })
        }),
{
    lemma_leb128_roundtrip(stream_id, payload);
}

/// Registering a handler raises the count of handlers by one where the stream-id is free
/// and leaves it as it is where the stream-id is taken; no other entry changes.
pub proof fn register_counts_once(m: Map<u64, u64>, stream_id: u64, handler: u64)
    requires
        m.dom().finite(),
    ensures
        registered(m, stream_id, handler).dom().finite(),
        registered(m, stream_id, handler).dom().contains(stream_id),
        registered(m, stream_id, handler).len() == m.len() + (if m.dom().contains(stream_id) {
            0int
        } else {
            1
        }),
        registered(m, stream_id, handler).remove(stream_id) == m.remove(stream_id),
        registered(m, stream_id, handler)[stream_id] == (if m.dom().contains(stream_id) {
            m[stream_id]
        } else {
            handler
        }),
{
    assert(registered(m, stream_id, handler).remove(stream_id) =~= m.remove(stream_id));
}

/// Taking a handler out lowers the count by one where the stream-id has one and leaves it
/// as it is where it has none.
pub proof fn unregister_counts_once(m: Map<u64, u64>, stream_id: u64)
    requires
        m.dom().finite(),
    ensures
        m.remove(stream_id).dom().finite(),
        m.remove(stream_id).len() == m.len() - (if m.dom().contains(stream_id) {
            1int
        } else {
            0
        }),
{
    assert(m.remove(stream_id).dom() =~= m.dom().remove(stream_id));
}

/// Registering a handler for a free stream-id and taking it out again leaves the handlers
/// as they were, and taking out once more changes nothing.
pub proof fn unregister_undoes_register(m: Map<u64, u64>, stream_id: u64, handler: u64)
    requires
        !m.dom().contains(stream_id),
    ensures
        registered(m, stream_id, handler).remove(stream_id) == m,
        m.remove(stream_id) == m,
{
    assert(m.insert(stream_id, handler).remove(stream_id) =~= m);
    assert(m.remove(stream_id) =~= m);
}

/// A second registration for a stream-id changes nothing: the first handler stays.
pub proof fn first_registration_stays(m: Map<u64, u64>, stream_id: u64, first: u64, second: u64)
    ensures
        registered(registered(m, stream_id, first), stream_id, second) == registered(
            m,
            stream_id,
            first,
        ),
{
}

/// Registering or taking out one stream-id leaves the datagrams of every other one alone.
pub proof fn other_sessions_unaffected(
    m: Map<u64, u64>,
    stream_id: u64,
    handler: u64,
    frame: Seq<u8>,
)
    requires
        !(take_leb128(frame) matches Ok((id, _)) && id == stream_id),
    ensures
        route(registered(m, stream_id, handler), frame) == route(m, frame),
        route(m.remove(stream_id), frame) == route(m, frame),
{
}

} // verus!
