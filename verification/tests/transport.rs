//! Protocol names.
use nerw_rpc::transport::{
    nerw_rpc_alpns, ALPN_NERW_DATAGRAM_1_0_0, ALPN_NERW_RPC_1_0_0, ALPN_NERW_RPC_2_0_0,
    ALPN_TOLKI_DATAGRAM_2_0_0, ALPN_TOLKI_WIRE_PROTOCOL_2_0_0,
};

#[test]
fn nerw_rpc_alpns_covers_every_advertised_constant() {
    let alpns = nerw_rpc_alpns();
    assert!(alpns.contains(&ALPN_TOLKI_WIRE_PROTOCOL_2_0_0.to_vec()));
    assert!(alpns.contains(&ALPN_TOLKI_DATAGRAM_2_0_0.to_vec()));
    assert!(alpns.contains(&ALPN_NERW_RPC_2_0_0.to_vec()));
    assert_eq!(alpns.len(), 3);
}

#[test]
fn alpn_constants_have_expected_byte_strings() {
    assert_eq!(ALPN_TOLKI_WIRE_PROTOCOL_2_0_0, b"tolki/wire-protocol/2.0.0");
    assert_eq!(ALPN_TOLKI_DATAGRAM_2_0_0, b"tolki/datagram/2.0.0");
    assert_eq!(ALPN_NERW_RPC_2_0_0, b"nerw/rpc/2.0.0");
}

#[test]
fn built_in_protocols_have_expected_byte_strings() {
    assert_eq!(ALPN_NERW_RPC_1_0_0, b"nerw/rpc/1.0.0");
    assert_eq!(ALPN_NERW_DATAGRAM_1_0_0, b"nerw/datagram/1.0.0");
}

#[test]
fn alpns_are_listed_in_order() {
    assert_eq!(
        nerw_rpc_alpns(),
        vec![
            b"tolki/wire-protocol/2.0.0".to_vec(),
            b"tolki/datagram/2.0.0".to_vec(),
            b"nerw/rpc/2.0.0".to_vec(),
        ]
    );
}
