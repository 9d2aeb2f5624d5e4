//! Verified core of an RPC framework for peer-to-peer meshes.
//!
//! Peers call each other's methods over substreams of an encrypted connection, and send
//! unreliable datagrams beside them. This crate holds everything that can be said without a
//! socket: the bytes of every frame and how they are read back, which handler a request or
//! a datagram goes to, how errors cross the wire, and the steps of a call on both sides.
use vstd::prelude::*;

pub mod client;
pub mod codec;
pub mod context;
pub mod datagram;
pub mod error;
pub mod laws;
pub mod method;
pub mod schema;
pub mod server;
pub mod streaming;
pub mod text;
pub mod transit;
pub mod transport;
pub mod varint;
pub mod version;
pub mod wire;
pub mod wire_error;

pub use crate::context::{
    loopback_node_id, AuthenticatedContext, NodeId, PeerMetadata, RpcContext, SessionInfo,
    TimingInfo, TracingInfo,
};
pub use crate::datagram::DatagramDispatcher;
pub use crate::error::{RpcError, RpcResult};
pub use crate::method::{MethodName, MethodRegistry};
pub use crate::server::{
    RpcServer, RpcServerConfig, DEFAULT_MAX_CONCURRENT_CONNECTIONS, DEFAULT_MAX_CONCURRENT_STREAMS,
};
pub use crate::transport::{
    nerw_rpc_alpns, ALPN_NERW_RPC_2_0_0, ALPN_TOLKI_DATAGRAM_2_0_0, ALPN_TOLKI_WIRE_PROTOCOL_2_0_0,
};
pub use crate::wire_error::WireError;

verus! {

} // verus!
