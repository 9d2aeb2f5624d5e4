//! Length-prefixed names and stream-ids.
use nerw_rpc::error::RpcError;
use nerw_rpc::wire::{
    decode_method_name, decode_stream_id, encode_method_name, encode_stream_id, get_varint,
    put_varint, VarintFault, MAX_METHOD_NAME_LEN, MAX_STREAMING_PAYLOAD_LEN,
    OPCODE_STREAMING_ERROR, OPCODE_STREAMING_OPEN_REQUEST, OPCODE_STREAMING_OPEN_RESPONSE,
    OPCODE_STREAMING_REQUEST_CHUNK, OPCODE_STREAMING_REQUEST_END, OPCODE_STREAMING_RESPONSE_CHUNK,
    OPCODE_STREAMING_RESPONSE_END, OPCODE_UNARY_ERROR, OPCODE_UNARY_REQUEST, OPCODE_UNARY_RESPONSE,
};

#[test]
fn method_name_roundtrip() {
    let name = "tolki:chat@1.0.0/chat/send-message";
    let mut buf = Vec::new();
    encode_method_name(name, &mut buf).expect("encode");

    let (decoded, rest) = decode_method_name(&buf).expect("decode");
    assert_eq!(decoded, name);
    assert!(rest.is_empty());
}

#[test]
fn method_name_with_payload_after() {
    let name = "tolki:schema@1.0.0/schema/get";
    let mut buf = Vec::new();
    encode_method_name(name, &mut buf).expect("encode");
    buf.extend_from_slice(b"PAYLOAD");

    let (decoded, rest) = decode_method_name(&buf).expect("decode");
    assert_eq!(decoded, name);
    assert_eq!(rest, b"PAYLOAD");
}

#[test]
fn rejects_truncated_buffer() {
    // varint says length=16, but no bytes follow.
    let bad = vec![0x10];
    assert!(decode_method_name(&bad).is_err());
}

#[test]
fn rejects_invalid_utf8() {
    // length=2, then two invalid-UTF-8 bytes.
    let bad = vec![0x02, 0xFF, 0xFE];
    let res = decode_method_name(&bad);
    assert!(matches!(res, Err(RpcError::MalformedFrame(_))));
}

#[test]
fn decode_rejects_oversized_method_name() {
    // varint claims length=5000, exceeding MAX_METHOD_NAME_LEN.
    let mut bad = Vec::new();
    leb128::write::unsigned(&mut bad, 5000_u64).expect("leb128 write");
    // The bound check fires before the bytes are looked for.
    let res = decode_method_name(&bad);
    match res {
        Err(RpcError::MalformedFrame(msg)) => {
            assert!(
                msg.contains("5000") && msg.contains("4096"),
                "error must mention requested vs max: got `{msg}`"
            );
        }
        other => panic!("expected MalformedFrame, got {other:?}"),
    }
}

#[test]
fn decode_accepts_method_name_at_max_len() {
    // Boundary: exactly MAX_METHOD_NAME_LEN bytes must succeed.
    let name = "a".repeat(MAX_METHOD_NAME_LEN);
    let mut buf = Vec::new();
    encode_method_name(&name, &mut buf).expect("encode");
    let (decoded, rest) = decode_method_name(&buf).expect("decode");
    assert_eq!(decoded.len(), MAX_METHOD_NAME_LEN);
    assert!(rest.is_empty());
}

#[test]
fn opcodes_have_expected_values() {
    assert_eq!(OPCODE_UNARY_REQUEST, 0x00);
    assert_eq!(OPCODE_UNARY_RESPONSE, 0x01);
    assert_eq!(OPCODE_UNARY_ERROR, 0x02);
    assert_eq!(OPCODE_STREAMING_OPEN_REQUEST, 0x10);
    assert_eq!(OPCODE_STREAMING_OPEN_RESPONSE, 0x11);
    assert_eq!(OPCODE_STREAMING_REQUEST_CHUNK, 0x20);
    assert_eq!(OPCODE_STREAMING_RESPONSE_CHUNK, 0x21);
    assert_eq!(OPCODE_STREAMING_REQUEST_END, 0x30);
    assert_eq!(OPCODE_STREAMING_RESPONSE_END, 0x31);
    assert_eq!(OPCODE_STREAMING_ERROR, 0x40);
}

#[test]
fn stream_id_roundtrip_small() {
    let mut buf = Vec::new();
    encode_stream_id(42, &mut buf).expect("encode");
    assert_eq!(buf.len(), 1, "stream-id 42 must encode to 1 byte");
    let (decoded, rest) = decode_stream_id(&buf).expect("decode");
    assert_eq!(decoded, 42);
    assert!(rest.is_empty());
}

#[test]
fn stream_id_roundtrip_large() {
    let mut buf = Vec::new();
    encode_stream_id(u64::from(u32::MAX), &mut buf).expect("encode");
    let (decoded, rest) = decode_stream_id(&buf).expect("decode");
    assert_eq!(decoded, u64::from(u32::MAX));
    assert!(rest.is_empty());
}

#[test]
fn stream_id_with_payload_after() {
    let mut buf = Vec::new();
    encode_stream_id(7, &mut buf).expect("encode");
    buf.extend_from_slice(b"PAYLOAD");
    let (decoded, rest) = decode_stream_id(&buf).expect("decode");
    assert_eq!(decoded, 7);
    assert_eq!(rest, b"PAYLOAD");
}

#[test]
fn stream_id_decode_rejects_empty_buffer() {
    let res = decode_stream_id(&[]);
    assert!(matches!(res, Err(RpcError::MalformedFrame(_))));
}

#[test]
fn stream_id_decode_rejects_truncated_varint() {
    // 0x80 = continuation bit set but no follow-up byte.
    let bad = [0x80_u8];
    let res = decode_stream_id(&bad);
    assert!(matches!(res, Err(RpcError::MalformedFrame(_))));
}

#[test]
fn stream_id_zero_roundtrip() {
    // Boundary: stream-id 0 must encode to a single zero byte.
    let mut buf = Vec::new();
    encode_stream_id(0, &mut buf).expect("encode");
    assert_eq!(buf, vec![0x00]);
    let (decoded, rest) = decode_stream_id(&buf).expect("decode");
    assert_eq!(decoded, 0);
    assert!(rest.is_empty());
}

fn malformed(res: Result<(&str, &[u8]), RpcError>) -> String {
    match res {
        Err(RpcError::MalformedFrame(msg)) => msg,
        other => panic!("expected MalformedFrame, got {other:?}"),
    }
}

#[test]
fn name_errors_read_as_written() {
    assert_eq!(
        malformed(decode_method_name(&[])),
        "leb128 read: failed to fill whole buffer"
    );
    assert_eq!(
        malformed(decode_method_name(&[0x10])),
        "method-name length exceeds buffer"
    );
    assert_eq!(
        malformed(decode_method_name(&[0x81, 0x20])),
        "method-name length 4097 exceeds maximum 4096"
    );
    assert_eq!(
        malformed(decode_method_name(&[0xff; 11])),
        "leb128 read: failed to fill whole buffer"
    );
    let mut wide = vec![0xff; 9];
    wide.push(0x7f);
    assert_eq!(
        malformed(decode_method_name(&wide)),
        "leb128 read: The number being read is larger than can be represented"
    );
}

#[test]
fn bad_text_reads_like_the_standard_library_says() {
    let cases: [&[u8]; 5] = [
        &[0xff, 0xfe],
        &[b'a', b'b', 0x80],
        &[0xe2, 0x82],
        &[0xed, 0xa0, 0x80],
        &[b'x', 0xf0, 0x9f, b'y'],
    ];
    for bytes in cases {
        let mut buf = vec![];
        put_varint(&mut buf, bytes.len() as u64);
        buf.extend_from_slice(bytes);
        let expected = match String::from_utf8(bytes.to_vec()) {
            Ok(s) => panic!("{s} is text"),
            Err(e) => e.utf8_error().to_string(),
        };
        assert_eq!(
            malformed(decode_method_name(&buf)),
            format!("non-UTF-8 method-name: {expected}")
        );
    }
}

#[test]
fn varints_are_those_of_leb128() {
    for n in [0, 1, 63, 64, 127, 128, 300, 16_384, u64::from(u32::MAX), u64::MAX] {
        let mut ours = vec![0xAA];
        put_varint(&mut ours, n);
        let mut theirs = vec![0xAA];
        leb128::write::unsigned(&mut theirs, n).expect("leb128 write");
        assert_eq!(ours, theirs);
        assert_eq!(get_varint(&ours[1..]), Ok((n, &[][..])));
    }
}

#[test]
fn varints_are_read_as_leb128_reads_them() {
    let mut inputs: Vec<Vec<u8>> = vec![vec![], vec![0x80], vec![0x80, 0x00, 5], vec![0xff; 12]];
    for last in [0x00, 0x01, 0x02, 0x7f, 0x80, 0x81] {
        let mut b = vec![0x80; 9];
        b.push(last);
        inputs.push(b.clone());
        b.push(0x01);
        b.push(0x55);
        inputs.push(b);
    }
    for b in inputs {
        let mut rest = &b[..];
        let theirs = match leb128::read::unsigned(&mut rest) {
            Ok(v) => Ok((v, rest)),
            Err(e) => {
                let ours = get_varint(&b).expect_err("both must refuse");
                assert_eq!(ours.to_string(), e.to_string());
                Err(match e {
                    leb128::read::Error::Overflow => VarintFault::Overflow,
                    leb128::read::Error::IoError(_) => VarintFault::Truncated,
                })
            }
        };
        assert_eq!(get_varint(&b), theirs, "{b:?}");
    }
}

#[test]
fn limits_have_their_values() {
    assert_eq!(MAX_METHOD_NAME_LEN, 4096);
    assert_eq!(MAX_STREAMING_PAYLOAD_LEN, 8_388_608);
}

#[test]
fn names_are_measured_in_bytes() {
    let mut buf = Vec::new();
    encode_method_name("\u{43c}/\u{438}/\u{444}", &mut buf).expect("encode");
    assert_eq!(buf[0], 8);
    assert_eq!(buf.len(), 9);
    assert_eq!(
        decode_method_name(&buf),
        Ok(("\u{43c}/\u{438}/\u{444}", &[][..]))
    );
    let long = "\u{43c}".repeat(MAX_METHOD_NAME_LEN / 2 + 1);
    let mut buf = Vec::new();
    encode_method_name(&long, &mut buf).expect("encode");
    assert_eq!(
        malformed(decode_method_name(&buf)),
        "method-name length 4098 exceeds maximum 4096"
    );
}
