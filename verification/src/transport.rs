//! Protocol identifiers negotiated when a connection is set up.
use vstd::prelude::*;

verus! {

/// `tolki/wire-protocol/2.0.0`: the protocol that calls are opened with.
pub const ALPN_TOLKI_WIRE_PROTOCOL_2_0_0: &'static [u8; 25] = &[
    0x74, 0x6f, 0x6c, 0x6b, 0x69, 0x2f, 0x77, 0x69, 0x72, 0x65, 0x2d, 0x70,
    0x72, 0x6f, 0x74, 0x6f, 0x63, 0x6f, 0x6c, 0x2f, 0x32, 0x2e, 0x30, 0x2e,
    0x30,
];

/// `tolki/datagram/2.0.0`: unreliable datagrams, each prefixed with the stream-id of the
/// stream that set its session up.
pub const ALPN_TOLKI_DATAGRAM_2_0_0: &'static [u8; 20] = &[
    0x74, 0x6f, 0x6c, 0x6b, 0x69, 0x2f, 0x64, 0x61, 0x74, 0x61, 0x67, 0x72,
    0x61, 0x6d, 0x2f, 0x32, 0x2e, 0x30, 0x2e, 0x30,
];

/// `nerw/rpc/2.0.0`: mesh control, declared here so that one endpoint can announce every
/// protocol at once.
pub const ALPN_NERW_RPC_2_0_0: &'static [u8; 14] = &[
    0x6e, 0x65, 0x72, 0x77, 0x2f, 0x72, 0x70, 0x63, 0x2f, 0x32, 0x2e, 0x30,
    0x2e, 0x30,
];

/// `nerw/rpc/1.0.0`: the protocol under which the server's own handler is installed.
pub const ALPN_NERW_RPC_1_0_0: &'static [u8; 14] = &[
    0x6e, 0x65, 0x72, 0x77, 0x2f, 0x72, 0x70, 0x63, 0x2f, 0x31, 0x2e, 0x30,
    0x2e, 0x30,
];

/// `nerw/datagram/1.0.0`: the protocol that the context of a datagram names.
pub const ALPN_NERW_DATAGRAM_1_0_0: &'static [u8; 19] = &[
    0x6e, 0x65, 0x72, 0x77, 0x2f, 0x64, 0x61, 0x74, 0x61, 0x67, 0x72, 0x61,
    0x6d, 0x2f, 0x31, 0x2e, 0x30, 0x2e, 0x30,
];

/// Every protocol that an endpoint has to announce when it is built.
pub open spec fn announced_alpns() -> Seq<Seq<u8>> {
    seq![ALPN_TOLKI_WIRE_PROTOCOL_2_0_0@, ALPN_TOLKI_DATAGRAM_2_0_0@, ALPN_NERW_RPC_2_0_0@]
}

/// Every protocol that an endpoint has to announce when it is built.
pub fn nerw_rpc_alpns() -> (r: Vec<Vec<u8>>)
    ensures
        r@.map_values(|v: Vec<u8>| v@) == announced_alpns(),
{
    let mut out: Vec<Vec<u8>> = Vec::new();
    out.push(vstd::slice::slice_to_vec(ALPN_TOLKI_WIRE_PROTOCOL_2_0_0));
    out.push(vstd::slice::slice_to_vec(ALPN_TOLKI_DATAGRAM_2_0_0));
    out.push(vstd::slice::slice_to_vec(ALPN_NERW_RPC_2_0_0));
    assert(out@.map_values(|v: Vec<u8>| v@) =~= announced_alpns());
    out
}

} // verus!
