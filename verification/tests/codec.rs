//! Fields as `postcard` writes and reads them.
use nerw_rpc::codec::{
    get_bytes, get_flag, get_raw32, get_raw64, get_text, get_texts, get_u32, get_u64, put_bytes,
    put_flag, put_text, put_texts, put_u32, put_u64, CodecError,
};

const NUMBERS: [u64; 14] = [
    0,
    1,
    127,
    128,
    255,
    300,
    16_383,
    16_384,
    0x0fff_ffff,
    0x1000_0000,
    0xffff_ffff,
    0x1_0000_0000,
    u64::MAX - 1,
    u64::MAX,
];

#[test]
fn numbers_are_written_like_postcard_writes_them() {
    for n in NUMBERS {
        let mut buf = vec![0xEE];
        put_u64(&mut buf, n);
        assert_eq!(buf[0], 0xEE);
        assert_eq!(&buf[1..], &postcard::to_allocvec(&n).expect("encode")[..]);
        assert_eq!(get_u64(&buf[1..]), Ok((n, &[][..])));
        buf.push(9);
        assert_eq!(get_u64(&buf[1..]), Ok((n, &[9][..])));
        if let Ok(small) = u32::try_from(n) {
            let mut buf = vec![];
            put_u32(&mut buf, small);
            assert_eq!(buf, postcard::to_allocvec(&small).expect("encode"));
            assert_eq!(get_u32(&buf), Ok((small, &[][..])));
        }
    }
}

fn kind(e: postcard::Error) -> CodecError {
    match e {
        postcard::Error::DeserializeUnexpectedEnd => CodecError::DeserializeUnexpectedEnd,
        postcard::Error::DeserializeBadVarint => CodecError::DeserializeBadVarint,
        postcard::Error::DeserializeBadUtf8 => CodecError::DeserializeBadUtf8,
        postcard::Error::DeserializeBadBool => CodecError::DeserializeBadBool,
        other => panic!("unexpected {other:?}"),
    }
}

fn odd_inputs() -> Vec<Vec<u8>> {
    let mut inputs = vec![
        vec![],
        vec![0x00],
        vec![0x80],
        vec![0x80, 0x00],
        vec![0x80, 0x80, 0x80, 0x80, 0x0f],
        vec![0x80, 0x80, 0x80, 0x80, 0x10],
        vec![0xff, 0xff, 0xff, 0xff, 0xff],
        vec![0xff, 0xff, 0xff, 0xff, 0x7f, 1],
        vec![0xff; 9],
        vec![0xff; 10],
        vec![0xff; 11],
        vec![3, b'a', b'b'],
        vec![3, b'a', b'b', b'c', b'd'],
        vec![2, 0xff, 0xfe],
        vec![4, 0xf0, 0x9f, 0x98, 0x80],
        vec![1, 1, b'x'],
        vec![2, 1, b'x', 1],
        vec![2, 1, b'x', 1, 0xc3],
        vec![0xff, 0xff, 0xff, 0xff, 0x0f, 1],
    ];
    let mut top = vec![0xff; 9];
    top.push(0x01);
    inputs.push(top);
    let mut over = vec![0xff; 9];
    over.push(0x02);
    inputs.push(over);
    let mut padded = vec![0x80; 9];
    padded.push(0x00);
    padded.push(7);
    inputs.push(padded);
    inputs
}

#[test]
fn fields_are_read_like_postcard_reads_them() {
    for b in odd_inputs() {
        assert_eq!(
            get_u32(&b),
            postcard::take_from_bytes::<u32>(&b).map_err(kind),
            "{b:?}"
        );
        assert_eq!(
            get_u64(&b),
            postcard::take_from_bytes::<u64>(&b).map_err(kind),
            "{b:?}"
        );
        assert_eq!(
            get_text(&b),
            postcard::take_from_bytes::<String>(&b).map_err(kind),
            "{b:?}"
        );
        assert_eq!(
            get_bytes(&b),
            postcard::take_from_bytes::<Vec<u8>>(&b).map_err(kind),
            "{b:?}"
        );
        assert_eq!(
            get_texts(&b),
            postcard::take_from_bytes::<Vec<String>>(&b).map_err(kind),
            "{b:?}"
        );
        assert_eq!(
            get_flag(&b, CodecError::DeserializeBadBool),
            postcard::take_from_bytes::<bool>(&b).map_err(kind),
            "{b:?}"
        );
    }
}

#[test]
fn texts_are_written_like_postcard_writes_them() {
    let long = "x".repeat(200);
    for s in ["", "a", "plain", "\u{43c}\u{435}\u{442}\u{43e}\u{434}", "\u{1f600}", &long] {
        let mut buf = vec![];
        put_text(&mut buf, s);
        assert_eq!(buf, postcard::to_allocvec(s).expect("encode"));
        assert_eq!(get_text(&buf), Ok((s.to_owned(), &[][..])));
        let mut buf = vec![];
        put_bytes(&mut buf, s.as_bytes());
        assert_eq!(buf, postcard::to_allocvec(s.as_bytes()).expect("encode"));
        assert_eq!(get_bytes(&buf), Ok((s.as_bytes().to_vec(), &[][..])));
    }
}

#[test]
fn lists_and_flags_are_written_like_postcard_writes_them() {
    let list = vec!["one".to_owned(), String::new(), "\u{442}\u{440}\u{438}".to_owned()];
    let mut buf = vec![];
    put_texts(&mut buf, &list);
    assert_eq!(buf, postcard::to_allocvec(&list).expect("encode"));
    assert_eq!(get_texts(&buf), Ok((list, &[][..])));
    for f in [false, true] {
        let mut buf = vec![];
        put_flag(&mut buf, f);
        assert_eq!(buf, postcard::to_allocvec(&f).expect("encode"));
        assert_eq!(
            get_flag(&buf, CodecError::DeserializeBadBool),
            Ok((f, &[][..]))
        );
    }
    assert_eq!(
        get_flag(&[2], CodecError::DeserializeBadOption),
        Err(CodecError::DeserializeBadOption)
    );
}

#[test]
fn raw_arrays_need_all_their_bytes() {
    let bytes: Vec<u8> = (0..65).collect();
    let (a, rest) = get_raw32(&bytes).expect("32 bytes");
    assert_eq!(&a[..], &bytes[..32]);
    assert_eq!(rest, &bytes[32..]);
    let (b, rest) = get_raw64(&bytes).expect("64 bytes");
    assert_eq!(&b[..], &bytes[..64]);
    assert_eq!(rest, &[64]);
    assert_eq!(
        get_raw32(&bytes[..31]),
        Err(CodecError::DeserializeUnexpectedEnd)
    );
    assert_eq!(
        get_raw64(&bytes[..63]),
        Err(CodecError::DeserializeUnexpectedEnd)
    );
}
