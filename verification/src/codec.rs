//! The postcard fields that messages are made of.
//!
//! A message is its fields one after the other, without names or padding. Each
//! field kind has a spec function for its bytes and one for reading it back from
//! the front of a buffer; integers, texts and byte strings go through `postcard`
//! itself.
use vstd::prelude::*;
use vstd::utf8::{decode_utf8, encode_utf8, encode_utf8_decode_utf8, encode_utf8_valid_utf8, valid_utf8};

use crate::varint::{
    lemma_pow128_monotone, lemma_pow128_values, lemma_varint_extend, lemma_varint_roundtrip,
    lemma_varint_run,
    lemma_varint_value_bound, lemma_varint_value_step, lemma_varint_width, pow128, varint,
    varint_run, varint_value,
};

verus! {

/// What `postcard` can report, variant by variant.
#[derive(Clone, Copy, Debug, PartialEq, Eq, Structural)]
pub enum CodecError {
    /// A feature the format will never have.
    WontImplement,
    /// A feature the format does not have yet.
    NotYetImplemented,
    /// The output buffer is full.
    SerializeBufferFull,
    /// A sequence of unknown length cannot be written.
    SerializeSeqLengthUnknown,
    /// The input ended inside a field.
    DeserializeUnexpectedEnd,
    /// An integer does not end, or does not fit its type.
    DeserializeBadVarint,
    /// A boolean was neither 0 nor 1.
    DeserializeBadBool,
    /// A character was not valid.
    DeserializeBadChar,
    /// A text was not UTF-8.
    DeserializeBadUtf8,
    /// An option tag was neither 0 nor 1.
    DeserializeBadOption,
    /// An enum tag does not fit 32 bits.
    DeserializeBadEnum,
    /// The input is not well encoded.
    DeserializeBadEncoding,
    /// A checksum does not match.
    DeserializeBadCrc,
    /// A type refused to be written.
    SerdeSerCustom,
    /// A type refused the value that was read, such as an unknown enum tag.
    SerdeDeCustom,
    /// A displayed value could not be collected.
    CollectStrError,
}

/// Reading a base-128 integer of at most `width` bytes whose last possible byte
/// is at most `last`.
pub open spec fn take_varint(b: Seq<u8>, width: nat, last: u8) -> Result<
    (nat, Seq<u8>),
    CodecError,
> {
    let n = varint_run(b);
    if n >= width {
        Err(CodecError::DeserializeBadVarint)
    } else if n == b.len() {
        Err(CodecError::DeserializeUnexpectedEnd)
    } else if n == width - 1 && b[n as int] > last {
        Err(CodecError::DeserializeBadVarint)
    } else {
        Ok((varint_value(b, n + 1), b.skip((n + 1) as int)))
    }
}

/// Reading a 32-bit integer.
pub open spec fn take_u32(b: Seq<u8>) -> Result<(u32, Seq<u8>), CodecError> {
    match take_varint(b, 5, 15) {
        Ok((v, rest)) => Ok((v as u32, rest)),
        Err(e) => Err(e),
    }
}

/// Reading a 64-bit integer.
pub open spec fn take_u64(b: Seq<u8>) -> Result<(u64, Seq<u8>), CodecError> {
    match take_varint(b, 10, 1) {
        Ok((v, rest)) => Ok((v as u64, rest)),
        Err(e) => Err(e),
    }
}

/// Reading a length, which is as wide as the machine's `usize`.
pub open spec fn take_len(b: Seq<u8>) -> Result<(nat, Seq<u8>), CodecError> {
    if usize::BITS == 64 {
        take_varint(b, 10, 1)
    } else {
        take_varint(b, 5, 15)
    }
}

/// The bytes of a byte-string field.
pub open spec fn bytes_field(s: Seq<u8>) -> Seq<u8> {
    varint(s.len()) + s
}

/// Reading a byte-string field.
pub open spec fn take_bytes(b: Seq<u8>) -> Result<(Seq<u8>, Seq<u8>), CodecError> {
    match take_len(b) {
        Err(e) => Err(e),
        Ok((n, rest)) => if n > rest.len() {
            Err(CodecError::DeserializeUnexpectedEnd)
        } else {
            Ok((rest.take(n as int), rest.skip(n as int)))
        },
    }
}

/// The bytes of a text field.
pub open spec fn text_field(s: Seq<char>) -> Seq<u8> {
    bytes_field(encode_utf8(s))
}

/// Reading a text field.
pub open spec fn take_text(b: Seq<u8>) -> Result<(Seq<char>, Seq<u8>), CodecError> {
    match take_bytes(b) {
        Err(e) => Err(e),
        Ok((s, rest)) => if valid_utf8(s) {
            Ok((decode_utf8(s), rest))
        } else {
            Err(CodecError::DeserializeBadUtf8)
        },
    }
}

/// What a reader returned, with its value and the unread bytes taken by their views.
pub open spec fn parsed<T: View>(r: Result<(T, &[u8]), CodecError>) -> Result<
    (T::V, Seq<u8>),
    CodecError,
> {
    match r {
        Ok((v, rest)) => Ok((v@, rest@)),
        Err(e) => Err(e),
    }
}

/// `postcard::to_allocvec` on a `u32`: its shortest base-128 encoding. Writing an
/// integer to a growing vector has no failure case.
#[verifier::external_body]
fn postcard_u32(v: u32) -> (r: Vec<u8>)
    ensures
        r@ == varint(v as nat),
{
    postcard::to_allocvec(&v).expect("a vector takes every byte")
}

/// `postcard::to_allocvec` on a `u64`: its shortest base-128 encoding. Writing an
/// integer to a growing vector has no failure case.
#[verifier::external_body]
fn postcard_u64(v: u64) -> (r: Vec<u8>)
    ensures
        r@ == varint(v as nat),
{
    postcard::to_allocvec(&v).expect("a vector takes every byte")
}

/// `postcard::to_allocvec` on a `str`: its length in bytes as a base-128 integer,
/// then its UTF-8 bytes. Writing a text to a growing vector has no failure case.
#[verifier::external_body]
fn postcard_text(s: &str) -> (r: Vec<u8>)
    ensures
        r@ == text_field(s@),
{
    postcard::to_allocvec(s).expect("a vector takes every byte")
}

/// `postcard::to_allocvec` on a byte slice, written as a sequence of `u8`: the
/// number of bytes as a base-128 integer, then the bytes. Writing them to a growing
/// vector has no failure case.
#[verifier::external_body]
fn postcard_bytes(s: &[u8]) -> (r: Vec<u8>)
    ensures
        r@ == bytes_field(s@),
{
    postcard::to_allocvec(s).expect("a vector takes every byte")
}

/// `postcard::take_from_bytes` on a `u32`: at most five bytes, the fifth at most
/// 15; the bytes behind it are handed back.
#[verifier::external_body]
fn postcard_take_u32(b: &[u8]) -> (r: Result<(u32, &[u8]), CodecError>)
    ensures
        parsed(r) == take_u32(b@),
{
    match postcard::take_from_bytes::<u32>(b) {
        Ok(taken) => Ok(taken),
        Err(postcard::Error::DeserializeUnexpectedEnd) => Err(CodecError::DeserializeUnexpectedEnd),
        Err(_) => Err(CodecError::DeserializeBadVarint),
    }
}

/// `postcard::take_from_bytes` on a `u64`: at most ten bytes, the tenth at most 1;
/// the bytes behind it are handed back.
#[verifier::external_body]
fn postcard_take_u64(b: &[u8]) -> (r: Result<(u64, &[u8]), CodecError>)
    ensures
        parsed(r) == take_u64(b@),
{
    match postcard::take_from_bytes::<u64>(b) {
        Ok(taken) => Ok(taken),
        Err(postcard::Error::DeserializeUnexpectedEnd) => Err(CodecError::DeserializeUnexpectedEnd),
        Err(_) => Err(CodecError::DeserializeBadVarint),
    }
}

/// `postcard::take_from_bytes` on a `String`: a length, that many bytes, which must
/// be UTF-8; the bytes behind them are handed back.
#[verifier::external_body]
fn postcard_take_text(b: &[u8]) -> (r: Result<(String, &[u8]), CodecError>)
    ensures
        parsed(r) == take_text(b@),
{
    match postcard::take_from_bytes::<String>(b) {
        Ok(taken) => Ok(taken),
        Err(postcard::Error::DeserializeUnexpectedEnd) => Err(CodecError::DeserializeUnexpectedEnd),
        Err(postcard::Error::DeserializeBadUtf8) => Err(CodecError::DeserializeBadUtf8),
        Err(_) => Err(CodecError::DeserializeBadVarint),
    }
}

/// `postcard::take_from_bytes` on a `Vec<u8>`: a length and that many bytes; the
/// bytes behind them are handed back.
#[verifier::external_body]
fn postcard_take_bytes(b: &[u8]) -> (r: Result<(Vec<u8>, &[u8]), CodecError>)
    ensures
        parsed(r) == take_bytes(b@),
{
    match postcard::take_from_bytes::<Vec<u8>>(b) {
        Ok(taken) => Ok(taken),
        Err(postcard::Error::DeserializeUnexpectedEnd) => Err(CodecError::DeserializeUnexpectedEnd),
        Err(_) => Err(CodecError::DeserializeBadVarint),
    }
}

/// The texts of a list of strings.
pub open spec fn texts(list: Seq<String>) -> Seq<Seq<char>> {
    list.map_values(|s: String| s@)
}

/// The fields of a list of texts, without its length.
pub open spec fn texts_body(list: Seq<Seq<char>>) -> Seq<u8>
    decreases list.len(),
{
    if list.len() == 0 {
        seq![]
    } else {
        text_field(list[0]) + texts_body(list.drop_first())
    }
}

/// The bytes of a list of texts.
pub open spec fn texts_field(list: Seq<Seq<char>>) -> Seq<u8> {
    varint(list.len()) + texts_body(list)
}

/// Whether a list and each of its texts fit the machine's address space, as every list and
/// string in memory does.
pub open spec fn texts_fit(list: Seq<Seq<char>>) -> bool {
    &&& list.len() <= usize::MAX
    &&& forall|i: int|
        0 <= i < list.len() ==> encode_utf8(#[trigger] list[i]).len() <= usize::MAX
}

/// Reading `n` more texts behind those already read.
pub open spec fn take_texts_from(b: Seq<u8>, n: nat, before: Seq<Seq<char>>) -> Result<
    (Seq<Seq<char>>, Seq<u8>),
    CodecError,
>
    decreases n,
{
    if n == 0 {
        Ok((before, b))
    } else {
        match take_text(b) {
            Err(e) => Err(e),
            Ok((s, rest)) => take_texts_from(rest, (n - 1) as nat, before.push(s)),
        }
    }
}

/// Reading a list of texts.
pub open spec fn take_texts(b: Seq<u8>) -> Result<(Seq<Seq<char>>, Seq<u8>), CodecError> {
    match take_len(b) {
        Err(e) => Err(e),
        Ok((n, rest)) => take_texts_from(rest, n, seq![]),
    }
}

/// The byte of a flag: a boolean, or the tag of an option.
pub open spec fn flag_field(f: bool) -> Seq<u8> {
    seq![
        if f {
            1u8
        } else {
            0u8
        },
    ]
}

/// Reading a flag; `bad` is the error for a byte other than 0 and 1.
pub open spec fn take_flag(b: Seq<u8>, bad: CodecError) -> Result<(bool, Seq<u8>), CodecError> {
    if b.len() == 0 {
        Err(CodecError::DeserializeUnexpectedEnd)
    } else if b[0] == 0 {
        Ok((false, b.skip(1)))
    } else if b[0] == 1 {
        Ok((true, b.skip(1)))
    } else {
        Err(bad)
    }
}

/// Reading `n` bytes as they stand.
pub open spec fn take_raw(b: Seq<u8>, n: nat) -> Result<(Seq<u8>, Seq<u8>), CodecError> {
    if b.len() < n {
        Err(CodecError::DeserializeUnexpectedEnd)
    } else {
        Ok((b.take(n as int), b.skip(n as int)))
    }
}

/// Appends a 32-bit integer.
pub fn put_u32(buf: &mut Vec<u8>, v: u32)
    ensures
        final(buf)@ == old(buf)@ + varint(v as nat),
{
    let mut field = postcard_u32(v);
    buf.append(&mut field);
}

/// Appends a 64-bit integer.
pub fn put_u64(buf: &mut Vec<u8>, v: u64)
    ensures
        final(buf)@ == old(buf)@ + varint(v as nat),
{
    let mut field = postcard_u64(v);
    buf.append(&mut field);
}

/// Appends a text.
pub fn put_text(buf: &mut Vec<u8>, s: &str)
    ensures
        final(buf)@ == old(buf)@ + text_field(s@),
        encode_utf8(s@).len() <= usize::MAX,
{
    let mut field = postcard_text(s);
    assert(field.len() >= encode_utf8(s@).len());
    buf.append(&mut field);
}

/// Appends a byte string.
pub fn put_bytes(buf: &mut Vec<u8>, s: &[u8])
    ensures
        final(buf)@ == old(buf)@ + bytes_field(s@),
        s@.len() <= usize::MAX,
{
    let mut field = postcard_bytes(s);
    assert(field.len() >= s@.len());
    buf.append(&mut field);
}

/// Appends a list of texts.
pub fn put_texts(buf: &mut Vec<u8>, list: &Vec<String>)
    ensures
        final(buf)@ == old(buf)@ + texts_field(texts(list@)),
        texts_fit(texts(list@)),
{
    let ghost start = buf@;
    let ghost all = texts(list@);
    put_u64(buf, list.len() as u64);
    let mut i: usize = 0;
    assert(all.skip(0) =~= all);
    while i < list.len()
        invariant
            i <= list@.len(),
            all == texts(list@),
            buf@ + texts_body(all.skip(i as int)) == start + texts_field(all),
            forall|j: int| 0 <= j < i ==> encode_utf8(#[trigger] all[j]).len() <= usize::MAX,
        decreases list@.len() - i,
    {
        put_text(buf, list[i].as_str());
        proof {
            let tail = all.skip(i as int);
            assert(tail[0] == list@[i as int]@);
            assert(tail.drop_first() =~= all.skip(i + 1));
        }
        i = i + 1;
    }
    assert(buf@ + texts_body(all.skip(i as int)) =~= buf@);
}

/// Appends a flag.
pub fn put_flag(buf: &mut Vec<u8>, f: bool)
    ensures
        final(buf)@ == old(buf)@ + flag_field(f),
{
    if f {
        buf.push(1);
    } else {
        buf.push(0);
    }
    assert(buf@ =~= old(buf)@ + flag_field(f));
}

/// Reads a 32-bit integer.
pub fn get_u32(b: &[u8]) -> (r: Result<(u32, &[u8]), CodecError>)
    ensures
        parsed(r) == take_u32(b@),
{
    postcard_take_u32(b)
}

/// Reads a 64-bit integer.
pub fn get_u64(b: &[u8]) -> (r: Result<(u64, &[u8]), CodecError>)
    ensures
        parsed(r) == take_u64(b@),
{
    postcard_take_u64(b)
}

/// Reads a text.
pub fn get_text(b: &[u8]) -> (r: Result<(String, &[u8]), CodecError>)
    ensures
        parsed(r) == take_text(b@),
{
    postcard_take_text(b)
}

/// Reads a byte string.
pub fn get_bytes(b: &[u8]) -> (r: Result<(Vec<u8>, &[u8]), CodecError>)
    ensures
        parsed(r) == take_bytes(b@),
{
    postcard_take_bytes(b)
}

/// Reads a length.
fn get_len(b: &[u8]) -> (r: Result<(u64, &[u8]), CodecError>)
    ensures
        match r {
            Ok((v, rest)) => take_len(b@) == Ok::<(nat, Seq<u8>), CodecError>((v as nat, rest@)),
            Err(e) => take_len(b@) == Err::<(nat, Seq<u8>), CodecError>(e),
        },
{
    proof {
        lemma_take_varint_bound(b@, 5, 15);
        lemma_take_varint_bound(b@, 10, 1);
    }
    if usize::BITS == 64 {
        get_u64(b)
    } else {
        match get_u32(b) {
            Ok((v, rest)) => Ok((v as u64, rest)),
            Err(e) => Err(e),
        }
    }
}

/// Reads a list of texts.
pub fn get_texts(b: &[u8]) -> (r: Result<(Vec<String>, &[u8]), CodecError>)
    ensures
        match r {
            Ok((list, rest)) => take_texts(b@) == Ok::<(Seq<Seq<char>>, Seq<u8>), CodecError>(
                (texts(list@), rest@),
            ),
            Err(e) => take_texts(b@) == Err::<(Seq<Seq<char>>, Seq<u8>), CodecError>(e),
        },
{
    let (count, first) = match get_len(b) {
        Ok(taken) => taken,
        Err(e) => return Err(e),
    };
    let mut list: Vec<String> = Vec::new();
    let mut rest: &[u8] = first;
    let mut left: u64 = count;
    assert(texts(list@) =~= seq![]);
    while left > 0
        invariant
            take_texts(b@) == take_texts_from(rest@, left as nat, texts(list@)),
        decreases left,
    {
        match get_text(rest) {
            Err(e) => return Err(e),
            Ok((s, tail)) => {
                let ghost before = texts(list@);
                let ghost text = s@;
                list.push(s);
                assert(texts(list@) =~= before.push(text));
                rest = tail;
                left = left - 1;
            },
        }
    }
    Ok((list, rest))
}

/// Reads a flag.
pub fn get_flag(b: &[u8], bad: CodecError) -> (r: Result<(bool, &[u8]), CodecError>)
    ensures
        parsed(r) == take_flag(b@, bad),
{
    if b.len() == 0 {
        return Err(CodecError::DeserializeUnexpectedEnd);
    }
    let rest = vstd::slice::slice_subrange(b, 1, b.len());
    assert(rest@ =~= b@.skip(1));
    match b[0] {
        0 => Ok((false, rest)),
        1 => Ok((true, rest)),
        _ => Err(bad),
    }
}

/// Reads 32 bytes as they stand.
pub fn get_raw32(b: &[u8]) -> (r: Result<([u8; 32], &[u8]), CodecError>)
    ensures
        parsed(r) == take_raw(b@, 32),
{
    if b.len() < 32 {
        return Err(CodecError::DeserializeUnexpectedEnd);
    }
    let mut out: [u8; 32] = [0; 32];
    let mut i: usize = 0;
    while i < 32
        invariant
            i <= 32 <= b@.len(),
            forall|j: int| 0 <= j < i ==> out@[j] == b@[j],
        decreases 32 - i,
    {
        out[i] = b[i];
        i = i + 1;
    }
    let rest = vstd::slice::slice_subrange(b, 32, b.len());
    assert(rest@ =~= b@.skip(32));
    assert(out@ =~= b@.take(32));
    Ok((out, rest))
}

/// Reads 64 bytes as they stand.
pub fn get_raw64(b: &[u8]) -> (r: Result<([u8; 64], &[u8]), CodecError>)
    ensures
        parsed(r) == take_raw(b@, 64),
{
    if b.len() < 64 {
        return Err(CodecError::DeserializeUnexpectedEnd);
    }
    let mut out: [u8; 64] = [0; 64];
    let mut i: usize = 0;
    while i < 64
        invariant
            i <= 64 <= b@.len(),
            forall|j: int| 0 <= j < i ==> out@[j] == b@[j],
        decreases 64 - i,
    {
        out[i] = b[i];
        i = i + 1;
    }
    let rest = vstd::slice::slice_subrange(b, 64, b.len());
    assert(rest@ =~= b@.skip(64));
    assert(out@ =~= b@.take(64));
    Ok((out, rest))
}

/// A 32-bit or 64-bit integer that was read fits its type.
pub proof fn lemma_take_varint_bound(b: Seq<u8>, width: nat, last: u8)
    requires
        (width == 5 && last == 15) || (width == 10 && last == 1),
    ensures
        take_varint(b, width, last) matches Ok((v, _)) ==> v < (if width == 5 {
            0x1_0000_0000int
        } else {
            0x1_0000_0000_0000_0000int
        }),
{
    let n = varint_run(b);
    lemma_varint_run(b);
    if n < width && n < b.len() {
        lemma_varint_value_bound(b, n);
        lemma_varint_value_step(b, n);
        lemma_pow128_values();
        let d = (b[n as int] % 128) as nat;
        let p = pow128(n);
        if n < width - 1 {
            lemma_varint_value_bound(b, n + 1);
            lemma_pow128_monotone(n + 1, (width - 1) as nat);
        } else if b[n as int] <= last {
            assert(d * p <= last as nat * p) by (nonlinear_arith)
                requires
                    d <= last,
            ;
        }
    }
}

/// What is written as a 32-bit integer reads back.
pub proof fn lemma_u32_roundtrip(v: u32, rest: Seq<u8>)
    ensures
        take_u32(varint(v as nat) + rest) == Ok::<(u32, Seq<u8>), CodecError>((v, rest)),
{
    lemma_pow128_values();
    lemma_varint_width(v as nat, 5, 16);
    lemma_varint_roundtrip(v as nat, rest);
    let b = varint(v as nat) + rest;
    assert(b[varint_run(b) as int] == varint(v as nat)[varint_run(b) as int]);
}

/// What is written as a 64-bit integer reads back.
pub proof fn lemma_u64_roundtrip(v: u64, rest: Seq<u8>)
    ensures
        take_u64(varint(v as nat) + rest) == Ok::<(u64, Seq<u8>), CodecError>((v, rest)),
{
    lemma_pow128_values();
    lemma_varint_width(v as nat, 10, 2);
    lemma_varint_roundtrip(v as nat, rest);
    let b = varint(v as nat) + rest;
    assert(b[varint_run(b) as int] == varint(v as nat)[varint_run(b) as int]);
}

/// A length reads back.
pub proof fn lemma_len_roundtrip(n: nat, rest: Seq<u8>)
    requires
        n <= usize::MAX,
    ensures
        take_len(varint(n) + rest) == Ok::<(nat, Seq<u8>), CodecError>((n, rest)),
{
    lemma_u64_roundtrip(n as u64, rest);
    if usize::BITS != 64 {
        lemma_u32_roundtrip(n as u32, rest);
    }
    lemma_varint_roundtrip(n, rest);
}

/// A byte string reads back.
pub proof fn lemma_bytes_roundtrip(s: Seq<u8>, rest: Seq<u8>)
    requires
        s.len() <= usize::MAX,
    ensures
        take_bytes(bytes_field(s) + rest) == Ok::<(Seq<u8>, Seq<u8>), CodecError>((s, rest)),
{
    assert(bytes_field(s) + rest =~= varint(s.len()) + (s + rest));
    lemma_len_roundtrip(s.len(), s + rest);
    assert((s + rest).take(s.len() as int) =~= s);
    assert((s + rest).skip(s.len() as int) =~= rest);
}

/// A text reads back.
pub proof fn lemma_text_roundtrip(s: Seq<char>, rest: Seq<u8>)
    requires
        encode_utf8(s).len() <= usize::MAX,
    ensures
        take_text(text_field(s) + rest) == Ok::<(Seq<char>, Seq<u8>), CodecError>((s, rest)),
{
    lemma_bytes_roundtrip(encode_utf8(s), rest);
    encode_utf8_valid_utf8(s);
    encode_utf8_decode_utf8(s);
}

proof fn lemma_texts_body_roundtrip(
    list: Seq<Seq<char>>,
    rest: Seq<u8>,
    before: Seq<Seq<char>>,
)
    requires
        forall|i: int| 0 <= i < list.len() ==> encode_utf8(#[trigger] list[i]).len() <= usize::MAX,
    ensures
        take_texts_from(texts_body(list) + rest, list.len(), before) == Ok::<
            (Seq<Seq<char>>, Seq<u8>),
            CodecError,
        >((before + list, rest)),
    decreases list.len(),
{
    if list.len() == 0 {
        assert(texts_body(list) + rest =~= rest);
        assert(before + list =~= before);
    } else {
        let tail = list.drop_first();
        assert(texts_body(list) + rest =~= text_field(list[0]) + (texts_body(tail) + rest));
        lemma_text_roundtrip(list[0], texts_body(tail) + rest);
        assert forall|i: int| 0 <= i < tail.len() implies encode_utf8(#[trigger] tail[i]).len()
            <= usize::MAX by {
            assert(tail[i] == list[i + 1]);
        }
        lemma_texts_body_roundtrip(tail, rest, before.push(list[0]));
        assert(before.push(list[0]) + tail =~= before + list);
    }
}

/// A list of texts reads back.
pub proof fn lemma_texts_roundtrip(list: Seq<Seq<char>>, rest: Seq<u8>)
    requires
        texts_fit(list),
    ensures
        take_texts(texts_field(list) + rest) == Ok::<(Seq<Seq<char>>, Seq<u8>), CodecError>(
            (list, rest),
        ),
{
    assert(texts_field(list) + rest =~= varint(list.len()) + (texts_body(list) + rest));
    lemma_len_roundtrip(list.len(), texts_body(list) + rest);
    lemma_texts_body_roundtrip(list, rest, seq![]);
    assert(Seq::<Seq<char>>::empty() + list =~= list);
}

/// A flag reads back.
pub proof fn lemma_flag_roundtrip(f: bool, bad: CodecError, rest: Seq<u8>)
    ensures
        take_flag(flag_field(f) + rest, bad) == Ok::<(bool, Seq<u8>), CodecError>((f, rest)),
{
    assert((flag_field(f) + rest).skip(1) =~= rest);
}

/// Bytes written as they stand read back.
pub proof fn lemma_raw_roundtrip(s: Seq<u8>, rest: Seq<u8>)
    ensures
        take_raw(s + rest, s.len()) == Ok::<(Seq<u8>, Seq<u8>), CodecError>((s, rest)),
{
    assert((s + rest).take(s.len() as int) =~= s);
    assert((s + rest).skip(s.len() as int) =~= rest);
}

/// An integer that was read is read again when more bytes follow.
pub proof fn lemma_varint_more(b: Seq<u8>, width: nat, last: u8, more: Seq<u8>)
    ensures
        take_varint(b, width, last) matches Ok((v, rest)) ==> take_varint(b + more, width, last)
            == Ok::<(nat, Seq<u8>), CodecError>((v, rest + more)),
{
    if take_varint(b, width, last) is Ok {
        lemma_varint_run(b);
        lemma_varint_extend(b, more);
        let n = varint_run(b) as int;
        assert((b + more).skip(n + 1) =~= b.skip(n + 1) + more);
    }
}

/// A byte string that was read is read again when more bytes follow.
pub proof fn lemma_bytes_more(b: Seq<u8>, more: Seq<u8>)
    ensures
        take_bytes(b) matches Ok((s, rest)) ==> take_bytes(b + more) == Ok::<
            (Seq<u8>, Seq<u8>),
            CodecError,
        >((s, rest + more)),
{
    lemma_varint_more(b, 10, 1, more);
    lemma_varint_more(b, 5, 15, more);
    if let Ok((n, tail)) = take_len(b) {
        if n <= tail.len() {
            assert((tail + more).take(n as int) =~= tail.take(n as int));
            assert((tail + more).skip(n as int) =~= tail.skip(n as int) + more);
        }
    }
}

/// Raw bytes that were read are read again when more bytes follow.
pub proof fn lemma_raw_more(b: Seq<u8>, n: nat, more: Seq<u8>)
    ensures
        take_raw(b, n) matches Ok((s, rest)) ==> take_raw(b + more, n) == Ok::<
            (Seq<u8>, Seq<u8>),
            CodecError,
        >((s, rest + more)),
{
    if n <= b.len() {
        assert((b + more).take(n as int) =~= b.take(n as int));
        assert((b + more).skip(n as int) =~= b.skip(n as int) + more);
    }
}

/// A flag that was read is read again when more bytes follow.
pub proof fn lemma_flag_more(b: Seq<u8>, bad: CodecError, more: Seq<u8>)
    ensures
        take_flag(b, bad) matches Ok((f, rest)) ==> take_flag(b + more, bad) == Ok::<
            (bool, Seq<u8>),
            CodecError,
        >((f, rest + more)),
{
    if b.len() > 0 {
        assert((b + more).skip(1) =~= b.skip(1) + more);
    }
}

} // verus!
