//! Frames of streaming calls.
use nerw_rpc::codec::CodecError;
use nerw_rpc::error::{RpcError, RpcResult};
use nerw_rpc::streaming::{
    classify_eof_or_error, encode_varint_u64, handler_err_to_terminal, write_frame,
    write_length_prefixed, write_open_request, write_open_response, write_request_chunk,
    write_request_end, write_response_chunk, write_response_end, write_single_opcode,
    write_streaming_error, FrameReader, ReadFault, ReadStep, StreamingError, StreamingFrame,
    StreamingOpenRequest, StreamingOpenResponse, StreamingOpenStatus,
};
use nerw_rpc::wire::MAX_STREAMING_PAYLOAD_LEN;

#[test]
fn open_request_roundtrips_via_postcard() {
    let req = StreamingOpenRequest {
        method_name: "nerw:test@1.0.0/echo/loop".to_owned(),
        request_id: 42,
    };
    let bytes = req.to_bytes();
    let back = StreamingOpenRequest::from_bytes(&bytes).expect("decode");
    assert_eq!(back, req);
    assert_eq!(
        bytes,
        postcard::to_allocvec(&("nerw:test@1.0.0/echo/loop", 42u64)).expect("encode")
    );
}

#[test]
fn open_response_ok_roundtrip() {
    let resp = StreamingOpenResponse {
        status: StreamingOpenStatus::Accepted,
        request_id: 7,
    };
    let bytes = resp.to_bytes();
    let back = StreamingOpenResponse::from_bytes(&bytes).expect("decode");
    assert_eq!(back, resp);
    assert_eq!(bytes, postcard::to_allocvec(&(0u32, 7u64)).expect("encode"));
}

#[test]
fn open_response_err_roundtrip() {
    let resp = StreamingOpenResponse {
        status: StreamingOpenStatus::Refused("not found".to_owned()),
        request_id: 7,
    };
    let bytes = resp.to_bytes();
    let back = StreamingOpenResponse::from_bytes(&bytes).expect("decode");
    assert_eq!(back, resp);
    assert_eq!(
        bytes,
        postcard::to_allocvec(&(1u32, "not found", 7u64)).expect("encode")
    );
}

#[test]
fn streaming_error_roundtrip() {
    let err = StreamingError {
        message: "boom".to_owned(),
        terminal: true,
    };
    let bytes = err.to_bytes();
    let back = StreamingError::from_bytes(&bytes).expect("decode");
    assert_eq!(back, err);
    assert_eq!(
        bytes,
        postcard::to_allocvec(&("boom", true)).expect("encode")
    );
}

#[test]
fn handler_err_to_terminal_preserves_display() {
    let rpc_err = RpcError::Handler("simulated boom".to_owned());
    let wire = handler_err_to_terminal(&rpc_err);
    assert!(wire.terminal);
    assert!(
        wire.message.contains("simulated boom"),
        "terminal payload must carry the inner error display"
    );
    assert_eq!(wire.message, "handler error: simulated boom");
}

#[test]
fn terminal_errors_carry_the_displayed_text() {
    let wire = StreamingError::terminal_from(&"out of tea");
    assert!(wire.terminal);
    assert_eq!(wire.message, "out of tea");
    assert_eq!(StreamingError::terminal_from(&17).message, "17");
}

fn frames() -> Vec<StreamingFrame> {
    vec![
        StreamingFrame::OpenRequest(StreamingOpenRequest {
            method_name: "a@1/b/\u{447}".to_owned(),
            request_id: u64::MAX,
        }),
        StreamingFrame::OpenResponse(StreamingOpenResponse {
            status: StreamingOpenStatus::Accepted,
            request_id: 0,
        }),
        StreamingFrame::OpenResponse(StreamingOpenResponse {
            status: StreamingOpenStatus::Refused("no".to_owned()),
            request_id: 300,
        }),
        StreamingFrame::RequestChunk(vec![]),
        StreamingFrame::RequestChunk(vec![1, 2, 3]),
        StreamingFrame::ResponseChunk(vec![0; 200]),
        StreamingFrame::RequestEnd,
        StreamingFrame::ResponseEnd,
        StreamingFrame::Error(StreamingError {
            message: "x".to_owned(),
            terminal: false,
        }),
    ]
}

fn bytes_of(frame: &StreamingFrame) -> Vec<u8> {
    let mut buf = vec![];
    write_frame(&mut buf, frame);
    buf
}

/// Reads one frame off the front of `input`; `None` where the input ends first.
fn read(input: &[u8]) -> Option<(RpcResult<StreamingFrame>, &[u8])> {
    let mut reader = FrameReader::new();
    let mut rest = input;
    loop {
        let n = reader.wanted();
        if n > rest.len() {
            return None;
        }
        let (next, tail) = rest.split_at(n);
        rest = tail;
        match reader.feed(next) {
            ReadStep::More(r) => reader = r,
            ReadStep::Frame(f) => return Some((Ok(f), rest)),
            ReadStep::Failed(e) => return Some((Err(e), rest)),
        }
    }
}

#[test]
fn frames_read_back_with_the_rest_untouched() {
    for frame in frames() {
        let mut input = bytes_of(&frame);
        input.extend_from_slice(b"next");
        assert_eq!(read(&input), Some((Ok(frame), &b"next"[..])));
    }
}

#[test]
fn frames_follow_each_other() {
    let mut input = vec![];
    for frame in frames() {
        write_frame(&mut input, &frame);
    }
    let mut rest = &input[..];
    for frame in frames() {
        let (read_back, tail) = read(rest).expect("a frame");
        assert_eq!(read_back, Ok(frame));
        rest = tail;
    }
    assert!(rest.is_empty());
}

#[test]
fn the_beginning_of_a_frame_is_no_frame() {
    for frame in frames() {
        let input = bytes_of(&frame);
        for n in 0..input.len() {
            assert_eq!(read(&input[..n]), None);
        }
    }
}

#[test]
fn frame_bytes_are_exact() {
    let mut buf = vec![];
    write_request_chunk(&mut buf, b"ab");
    assert_eq!(buf, [0x20, 2, b'a', b'b']);
    buf.clear();
    write_response_chunk(&mut buf, &[]);
    assert_eq!(buf, [0x21, 0]);
    write_request_end(&mut buf);
    write_response_end(&mut buf);
    assert_eq!(buf, [0x21, 0, 0x30, 0x31]);
    buf.clear();
    write_open_request(
        &mut buf,
        &StreamingOpenRequest {
            method_name: "m".to_owned(),
            request_id: 5,
        },
    );
    assert_eq!(buf, [0x10, 3, 1, b'm', 5]);
    buf.clear();
    write_open_response(
        &mut buf,
        &StreamingOpenResponse {
            status: StreamingOpenStatus::Accepted,
            request_id: 5,
        },
    );
    assert_eq!(buf, [0x11, 2, 0, 5]);
    buf.clear();
    write_streaming_error(
        &mut buf,
        &StreamingError {
            message: "e".to_owned(),
            terminal: true,
        },
    );
    assert_eq!(buf, [0x40, 3, 1, b'e', 1]);
    buf.clear();
    write_length_prefixed(&mut buf, 0x77, &[9; 130]);
    assert_eq!(&buf[..3], &[0x77, 0x82, 0x01]);
    assert_eq!(buf.len(), 133);
    buf.clear();
    write_single_opcode(&mut buf, 0x55);
    assert_eq!(buf, [0x55]);
    encode_varint_u64(300, &mut buf).expect("encode");
    assert_eq!(buf, [0x55, 0xac, 0x02]);
}

fn failure(input: &[u8]) -> RpcError {
    match read(input) {
        Some((Err(e), _)) => e,
        other => panic!("expected an error, got {other:?}"),
    }
}

#[test]
fn frames_that_cannot_be_read_are_refused() {
    assert_eq!(
        failure(&[0x00]),
        RpcError::MalformedFrame("unexpected streaming opcode 0x00".to_owned())
    );
    assert_eq!(
        failure(&[0x7e]),
        RpcError::MalformedFrame("unexpected streaming opcode 0x7e".to_owned())
    );
    let mut endless = vec![0x20];
    endless.extend_from_slice(&[0x80; 10]);
    assert_eq!(
        failure(&endless),
        RpcError::MalformedFrame("streaming varint > 10 bytes".to_owned())
    );
    assert_eq!(
        failure(&[0x10, 0]),
        RpcError::Codec(CodecError::DeserializeUnexpectedEnd)
    );
    assert_eq!(
        failure(&[0x11, 1, 2]),
        RpcError::Codec(CodecError::SerdeDeCustom)
    );
    assert_eq!(
        failure(&[0x40, 2, 0, 2]),
        RpcError::Codec(CodecError::DeserializeBadBool)
    );
}

#[test]
fn payloads_have_a_largest_size() {
    let mut over = vec![0x21];
    encode_varint_u64(MAX_STREAMING_PAYLOAD_LEN as u64 + 1, &mut over).expect("encode");
    assert_eq!(
        failure(&over),
        RpcError::MalformedFrame(
            "streaming payload length 8388609 exceeds maximum 8388608".to_owned()
        )
    );
    let largest = StreamingFrame::ResponseChunk(vec![3; MAX_STREAMING_PAYLOAD_LEN]);
    let input = bytes_of(&largest);
    assert_eq!(read(&input), Some((Ok(largest), &[][..])));
}

#[test]
fn a_length_of_ten_bytes_counts_64_bits() {
    let mut input = vec![0x20];
    input.extend_from_slice(&[0x82, 0x80, 0x80, 0x80, 0x80, 0x80, 0x80, 0x80, 0x80, 0x02]);
    input.extend_from_slice(b"ab");
    assert_eq!(
        read(&input),
        Some((Ok(StreamingFrame::RequestChunk(b"ab".to_vec())), &[][..]))
    );
}

fn reader_after(bytes: &[u8]) -> FrameReader {
    let mut reader = FrameReader::new();
    for b in bytes {
        assert_eq!(reader.wanted(), 1);
        reader = match reader.feed(&[*b]) {
            ReadStep::More(r) => r,
            _ => panic!("the frame must go on"),
        };
    }
    reader
}

#[test]
fn a_stream_may_end_between_frames() {
    assert_eq!(FrameReader::new().read_failed(ReadFault::FinishedEarly(0)), Ok(()));
    assert_eq!(classify_eof_or_error(ReadFault::FinishedEarly(0)), Ok(()));
    let closed = Err(RpcError::TransportRead {
        reason: "closed stream".to_owned(),
    });
    assert_eq!(FrameReader::new().read_failed(ReadFault::ClosedStream), closed);
    assert_eq!(classify_eof_or_error(ReadFault::ClosedStream), closed);
    assert_eq!(
        classify_eof_or_error(ReadFault::FinishedEarly(3)),
        Err(RpcError::TransportRead {
            reason: "partial frame: read 3 bytes before EOF".to_owned()
        })
    );
    assert_eq!(
        FrameReader::new().read_failed(ReadFault::Failed("reset by peer".to_owned())),
        Err(RpcError::TransportRead {
            reason: "reset by peer".to_owned()
        })
    );
}

#[test]
fn a_stream_may_not_end_inside_a_frame() {
    for inside in [&[0x20][..], &[0x20, 0x81][..]] {
        let reader = reader_after(inside);
        assert_eq!(
            reader.read_failed(ReadFault::FinishedEarly(0)),
            Err(RpcError::MalformedFrame(
                "streaming varint: stream finished early (0 bytes read)".to_owned()
            ))
        );
        assert_eq!(
            reader.read_failed(ReadFault::ClosedStream),
            Err(RpcError::TransportRead {
                reason: "streaming varint: closed stream".to_owned()
            })
        );
    }
    let reader = reader_after(&[0x20, 0x05]);
    assert_eq!(reader.wanted(), 5);
    assert_eq!(
        reader.read_failed(ReadFault::FinishedEarly(2)),
        Err(RpcError::TransportRead {
            reason: "streaming payload body: stream finished early (2 bytes read)".to_owned()
        })
    );
    assert_eq!(
        reader.read_failed(ReadFault::Failed("timed out".to_owned())),
        Err(RpcError::TransportRead {
            reason: "streaming payload body: timed out".to_owned()
        })
    );
}
