//! Laws on the pieces that messages and texts are made of.
use vstd::prelude::*;
use vstd::utf8::{decode_utf8, encode_utf8, valid_utf8};

use crate::codec::{
    bytes_field, get_bytes, get_flag, get_raw32, get_raw64, get_text, get_texts, get_u32, get_u64,
    lemma_bytes_roundtrip, lemma_text_roundtrip, lemma_texts_roundtrip, lemma_u32_roundtrip,
    lemma_u64_roundtrip, put_bytes, put_flag, put_text, put_texts, put_u32, put_u64, text_field,
    texts, CodecError,
};
use crate::error::{RpcError, RpcResult};
use crate::laws::errors::{lemma_same_texts, lemma_sized_texts, same_texts, sized_texts};
use crate::laws::frames::{sized, sized_text};
use crate::text::{
    bytes_less, chars_of, decimal, decimal_text, hex2, hex2_text, join2, join3, order_bytes,
    order_text, same_text, TextOrder,
};
use crate::varint::{
    lemma_pow128_monotone, lemma_pow128_values, lemma_varint_run_is, lemma_varint_value_bound,
    lemma_varint_value_step, pow128, varint, varint_run, varint_value,
};
use crate::wire::{
    decode_method_name, decode_stream_id, encode_method_name, encode_stream_id, get_varint,
    lemma_leb128_roundtrip, method_name_roundtrip, put_varint, utf8_error_text, VarintFault,
};

verus! {

/// A number is written in base 128, the lowest digit first, with 128 added to every digit
/// but the last.
pub proof fn numbers_are_in_base_128(v: nat)
    ensures
        v < 128 ==> varint(v) == seq![v as u8],
        v >= 128 ==> varint(v) == seq![(128 + v % 128) as u8] + varint(v / 128),
{
}

/// Integers are appended in base 128, texts and byte strings behind their length, lists
/// behind their length item by item, and flags as 1 or 0.
pub proof fn fields_are_appended(
    b1: &mut Vec<u8>,
    n1: u32,
    b2: &mut Vec<u8>,
    n2: u64,
    b3: &mut Vec<u8>,
    s: &str,
    b4: &mut Vec<u8>,
    bytes: &[u8],
    b5: &mut Vec<u8>,
    list: &Vec<String>,
    b6: &mut Vec<u8>,
    flag: bool,
)
    requires
        call_ensures(put_u32, (b1, n1), ()),
        call_ensures(put_u64, (b2, n2), ()),
        call_ensures(put_text, (b3, s), ()),
        call_ensures(put_bytes, (b4, bytes), ()),
        call_ensures(put_texts, (b5, list), ()),
        call_ensures(put_flag, (b6, flag), ()),
    ensures
        final(b1)@ == old(b1)@ + varint(n1 as nat),
        final(b2)@ == old(b2)@ + varint(n2 as nat),
        final(b3)@ == old(b3)@ + sized_text(s@),
        final(b4)@ == old(b4)@ + sized(bytes@),
        final(b5)@ == old(b5)@ + sized_texts(list@),
        final(b6)@ == old(b6)@ + seq![
            if flag {
                1u8
            } else {
                0u8
            },
        ],
{
    lemma_sized_texts(list@);
}

/// An integer that was written is read back, and what follows it is left.
pub proof fn integers_read_back<'a>(
    n: u32,
    m: u64,
    rest: Seq<u8>,
    b: &'a [u8],
    c: &'a [u8],
    r: Result<(u32, &'a [u8]), CodecError>,
    s: Result<(u64, &'a [u8]), CodecError>,
)
    requires
        b@ == varint(n as nat) + rest,
        c@ == varint(m as nat) + rest,
        call_ensures(get_u32, (b,), r),
        call_ensures(get_u64, (c,), s),
    ensures
        r matches Ok((v, left)) && v == n && left@ == rest,
        s matches Ok((v, left)) && v == m && left@ == rest,
{
    lemma_u32_roundtrip(n, rest);
    lemma_u64_roundtrip(m, rest);
}

/// A text and a byte string that were written are read back, and what follows them is left.
pub proof fn texts_and_bytes_read_back<'a>(
    text: Seq<char>,
    bytes: Seq<u8>,
    rest: Seq<u8>,
    b: &'a [u8],
    c: &'a [u8],
    r: Result<(String, &'a [u8]), CodecError>,
    s: Result<(Vec<u8>, &'a [u8]), CodecError>,
)
    requires
        encode_utf8(text).len() <= usize::MAX,
        bytes.len() <= usize::MAX,
        b@ == sized_text(text) + rest,
        c@ == sized(bytes) + rest,
        call_ensures(get_text, (b,), r),
        call_ensures(get_bytes, (c,), s),
    ensures
        r matches Ok((v, left)) && v@ == text && left@ == rest,
        s matches Ok((v, left)) && v@ == bytes && left@ == rest,
{
    assert(sized_text(text) =~= text_field(text));
    assert(sized(bytes) =~= bytes_field(bytes));
    lemma_text_roundtrip(text, rest);
    lemma_bytes_roundtrip(bytes, rest);
}

/// A list of texts that was written is read back, and what follows it is left.
pub proof fn lists_read_back<'a>(
    list: &Vec<String>,
    rest: Seq<u8>,
    b: &'a [u8],
    r: Result<(Vec<String>, &'a [u8]), CodecError>,
)
    requires
        list@.len() <= usize::MAX,
        forall|i: int|
            0 <= i < list@.len() ==> encode_utf8((#[trigger] list@[i])@).len() <= usize::MAX,
        b@ == sized_texts(list@) + rest,
        call_ensures(get_texts, (b,), r),
    ensures
        r matches Ok((v, left)) && same_texts(list@, v@) && left@ == rest,
{
    lemma_sized_texts(list@);
    assert(texts(list@).len() == list@.len());
    assert forall|i: int| 0 <= i < list@.len() implies encode_utf8(
        #[trigger] texts(list@)[i],
    ).len() <= usize::MAX by {
        assert(texts(list@)[i] == list@[i]@);
    }
    lemma_texts_roundtrip(texts(list@), rest);
    if let Ok((v, _)) = r {
        lemma_same_texts(list@, v@);
    }
}

/// A flag is read from a 0 or a 1; any other byte gives the error that was asked for, and no
/// byte the end of the input.
pub proof fn flags_are_read<'a>(
    b: &'a [u8],
    bad: CodecError,
    r: Result<(bool, &'a [u8]), CodecError>,
)
    requires
        call_ensures(get_flag, (b, bad), r),
    ensures
        b@.len() == 0 ==> r == Err::<(bool, &'a [u8]), CodecError>(
            CodecError::DeserializeUnexpectedEnd,
        ),
        b@.len() > 0 && b@[0] == 0 ==> (r matches Ok((f, left)) && !f && left@ == b@.skip(1)),
        b@.len() > 0 && b@[0] == 1 ==> (r matches Ok((f, left)) && f && left@ == b@.skip(1)),
        b@.len() > 0 && b@[0] > 1 ==> r == Err::<(bool, &'a [u8]), CodecError>(bad),
{
}

/// Bytes are read as they stand, if there are enough of them.
pub proof fn raw_bytes_are_read<'a>(
    b: &'a [u8],
    r: Result<([u8; 32], &'a [u8]), CodecError>,
    s: Result<([u8; 64], &'a [u8]), CodecError>,
)
    requires
        call_ensures(get_raw32, (b,), r),
        call_ensures(get_raw64, (b,), s),
    ensures
        if b@.len() >= 32 {
            r matches Ok((v, left)) && v@ == b@.take(32) && left@ == b@.skip(32)
        } else {
            r matches Err(CodecError::DeserializeUnexpectedEnd)
        },
        if b@.len() >= 64 {
            s matches Ok((v, left)) && v@ == b@.take(64) && left@ == b@.skip(64)
        } else {
            s matches Err(CodecError::DeserializeUnexpectedEnd)
        },
{
}

/// A stream-id is appended in base 128 and read back, whatever it is; what follows it is
/// left.
pub proof fn stream_ids_read_back<'a>(
    id: u64,
    buf: &mut Vec<u8>,
    w: RpcResult<()>,
    rest: Seq<u8>,
    b: &'a [u8],
    r: RpcResult<(u64, &'a [u8])>,
    g: Result<(u64, &'a [u8]), VarintFault>,
)
    requires
        call_ensures(encode_stream_id, (id, buf), w),
        b@ == varint(id as nat) + rest,
        call_ensures(decode_stream_id, (b,), r),
        call_ensures(get_varint, (b,), g),
    ensures
        w is Ok && final(buf)@ == old(buf)@ + varint(id as nat),
        r matches Ok((v, left)) && v == id && left@ == rest,
        g matches Ok((v, left)) && v == id && left@ == rest,
{
    lemma_leb128_roundtrip(id, rest);
}

/// A number that does not end in the buffer is refused, and so is one of more than 64 bits.
pub proof fn bad_numbers_are_refused<'a>(
    b: &'a [u8],
    run: nat,
    r: RpcResult<(u64, &'a [u8])>,
    g: Result<(u64, &'a [u8]), VarintFault>,
)
    requires
        run <= b@.len(),
        forall|i: int| 0 <= i < run ==> #[trigger] b@[i] >= 128,
        run < b@.len() ==> b@[run as int] < 128 && (run > 9 || (run == 9 && b@[9] > 1)),
        call_ensures(decode_stream_id, (b,), r),
        call_ensures(get_varint, (b,), g),
    ensures
        run == b@.len() ==> (r matches Err(RpcError::MalformedFrame(s)) && s@
            == "leb128 read stream-id: "@ + "failed to fill whole buffer"@) && (
        g matches Err(VarintFault::Truncated)),
        run < b@.len() ==> (r matches Err(RpcError::MalformedFrame(s)) && s@
            == "leb128 read stream-id: "@
            + "The number being read is larger than can be represented"@) && (
        g matches Err(VarintFault::Overflow)),
{
    lemma_varint_run_is(b@, run);
}

/// The number that digits in base 128 spell, the lowest first.
pub open spec fn base_128(digits: Seq<u8>) -> nat
    decreases digits.len(),
{
    if digits.len() == 0 {
        0
    } else {
        (digits[0] % 128) as nat + 128 * base_128(digits.drop_first())
    }
}

/// Whether `digits` are the digits of one number: the last is below 128, all others are not.
pub open spec fn one_number(digits: Seq<u8>) -> bool {
    &&& digits.len() > 0
    &&& digits.last() < 128
    &&& forall|i: int| 0 <= i < digits.len() - 1 ==> #[trigger] digits[i] >= 128
}

/// The digits at the front of a buffer spell what they spell alone.
pub proof fn lemma_base_128(digits: Seq<u8>, rest: Seq<u8>)
    ensures
        varint_value(digits + rest, digits.len()) == base_128(digits),
    decreases digits.len(),
{
    if digits.len() > 0 {
        lemma_base_128(digits.drop_first(), rest);
        assert((digits + rest).drop_first() =~= digits.drop_first() + rest);
        assert((digits + rest)[0] == digits[0]);
    }
}

/// The digits of one number at the front of a buffer end where they end alone.
pub proof fn lemma_one_number(digits: Seq<u8>, rest: Seq<u8>)
    requires
        one_number(digits),
    ensures
        varint_run(digits + rest) == digits.len() - 1,
        varint_value(digits + rest, digits.len()) == base_128(digits),
        (digits + rest).skip(digits.len() as int) == rest,
{
    let b = digits + rest;
    assert forall|i: int| 0 <= i < digits.len() - 1 implies #[trigger] b[i] >= 128 by {
        assert(b[i] == digits[i]);
    }
    assert(b[digits.len() - 1] == digits.last());
    lemma_varint_run_is(b, (digits.len() - 1) as nat);
    lemma_base_128(digits, rest);
    assert(b.skip(digits.len() as int) =~= rest);
}

/// A number of up to 64 bits is read from its digits, also where they could be fewer, and
/// what follows it is left.
pub proof fn numbers_are_read_from_their_digits<'a>(
    digits: Seq<u8>,
    rest: Seq<u8>,
    b: &'a [u8],
    r: RpcResult<(u64, &'a [u8])>,
    g: Result<(u64, &'a [u8]), VarintFault>,
    u: Result<(u64, &'a [u8]), CodecError>,
)
    requires
        one_number(digits),
        digits.len() < 10 || (digits.len() == 10 && digits[9] <= 1),
        b@ == digits + rest,
        call_ensures(decode_stream_id, (b,), r),
        call_ensures(get_varint, (b,), g),
        call_ensures(get_u64, (b,), u),
    ensures
        r matches Ok((v, left)) && v == base_128(digits) && left@ == rest,
        g matches Ok((v, left)) && v == base_128(digits) && left@ == rest,
        u matches Ok((v, left)) && v == base_128(digits) && left@ == rest,
{
    lemma_one_number(digits, rest);
    lemma_fits_64_bits(digits, rest);
}

/// A number of nine digits, or of ten with a last one of at most 1, fits 64 bits.
pub proof fn lemma_fits_64_bits(digits: Seq<u8>, rest: Seq<u8>)
    requires
        one_number(digits),
        digits.len() < 10 || (digits.len() == 10 && digits[9] <= 1),
    ensures
        base_128(digits) <= u64::MAX,
{
    let b = digits + rest;
    lemma_base_128(digits, rest);
    lemma_pow128_values();
    if digits.len() < 10 {
        lemma_varint_value_bound(b, digits.len());
        lemma_pow128_monotone(digits.len(), 9);
    } else {
        lemma_varint_value_step(b, 9);
        lemma_varint_value_bound(b, 9);
        assert(b[9] == digits[9]);
        let d = (b[9] % 128) as nat;
        assert(d * pow128(9) <= pow128(9)) by (nonlinear_arith)
            requires
                d <= 1,
        ;
    }
}

/// How a bad number reads.
pub proof fn bad_numbers_read(f: &VarintFault, r: String, buf: &mut Vec<u8>, v: u64)
    requires
        call_ensures(VarintFault::to_string, (f,), r),
        call_ensures(put_varint, (buf, v), ()),
    ensures
        *f is Truncated ==> r@ == "failed to fill whole buffer"@,
        *f is Overflow ==> r@ == "The number being read is larger than can be represented"@,
        final(buf)@ == old(buf)@ + varint(v as nat),
{
}

/// A method name is appended behind its length, and one of at most 4096 bytes is read back;
/// what follows it is left.
pub proof fn method_names_read_back<'a>(
    name: &str,
    buf: &mut Vec<u8>,
    w: RpcResult<()>,
    rest: Seq<u8>,
    b: &'a [u8],
    r: RpcResult<(&'a str, &'a [u8])>,
)
    requires
        call_ensures(encode_method_name, (name, buf), w),
        b@ == sized_text(name@) + rest,
        encode_utf8(name@).len() <= 4096,
        call_ensures(decode_method_name, (b,), r),
    ensures
        w is Ok && final(buf)@ == old(buf)@ + sized_text(name@),
        r matches Ok((s, left)) && s@ == name@ && left@ == rest,
{
    assert(sized_text(name@) =~= text_field(name@));
    method_name_roundtrip(name@, rest);
}

/// A method name is read from its announced length on, whatever digits announce it, and
/// refused if it is announced with more than 4096 bytes, if the buffer does not hold all of
/// them, or if they are no UTF-8.
pub proof fn method_names_are_checked<'a>(
    digits: Seq<u8>,
    rest: Seq<u8>,
    b: &'a [u8],
    r: RpcResult<(&'a str, &'a [u8])>,
    declared: nat,
)
    requires
        one_number(digits),
        digits.len() < 10 || (digits.len() == 10 && digits[9] <= 1),
        declared == base_128(digits),
        b@ == digits + rest,
        call_ensures(decode_method_name, (b,), r),
    ensures
        4096 < declared <= usize::MAX ==> (r matches Err(RpcError::MalformedFrame(s)) && s@
            == "method-name length "@ + decimal(declared) + " exceeds maximum "@ + decimal(4096)),
        declared > 4096 ==> (r matches Err(RpcError::MalformedFrame(_))),
        rest.len() < declared <= 4096 ==> (r matches Err(RpcError::MalformedFrame(s)) && s@
            == "method-name length exceeds buffer"@),
        declared <= 4096 && declared <= rest.len() ==> (r is Ok <==> valid_utf8(
            rest.take(declared as int),
        )),
        declared <= 4096 && declared <= rest.len() ==> match r {
            Ok((name, left)) => name@ == decode_utf8(rest.take(declared as int)) && left@
                == rest.skip(declared as int),
            Err(e) => e matches RpcError::MalformedFrame(s) && s@ == "non-UTF-8 method-name: "@
                + utf8_error_text(rest.take(declared as int)),
        },
{
    lemma_one_number(digits, rest);
    lemma_fits_64_bits(digits, rest);
}

/// A method name whose length does not end, or has more than 64 bits, is refused.
pub proof fn bad_name_lengths_are_refused<'a>(
    b: &'a [u8],
    run: nat,
    r: RpcResult<(&'a str, &'a [u8])>,
)
    requires
        run <= b@.len(),
        forall|i: int| 0 <= i < run ==> #[trigger] b@[i] >= 128,
        run < b@.len() ==> b@[run as int] < 128 && (run > 9 || (run == 9 && b@[9] > 1)),
        call_ensures(decode_method_name, (b,), r),
    ensures
        run == b@.len() ==> (r matches Err(RpcError::MalformedFrame(s)) && s@ == "leb128 read: "@
            + "failed to fill whole buffer"@),
        run < b@.len() ==> (r matches Err(RpcError::MalformedFrame(s)) && s@ == "leb128 read: "@
            + "The number being read is larger than can be represented"@),
{
    lemma_varint_run_is(b@, run);
}

/// A number reads as the number without its last digit, then that digit.
pub proof fn decimals_read(n: u64, r: String, head: String)
    requires
        call_ensures(decimal_text, (n,), r),
        call_ensures(decimal_text, (n / 10,), head),
    ensures
        n < 10 ==> r@ == seq!["0123456789"@[n as int]],
        n >= 10 ==> r@ == head@.push("0123456789"@[(n % 10) as int]),
        r@ == decimal(n as nat),
{
    reveal_strlit("0123456789");
}

/// A byte reads as its two hexadecimal digits.
pub proof fn hexadecimals_read(b: u8, r: String)
    requires
        call_ensures(hex2_text, (b,), r),
    ensures
        r@ == seq!["0123456789abcdef"@[b as int / 16], "0123456789abcdef"@[b as int % 16]],
        r@ == hex2(b),
{
    reveal_strlit("0123456789abcdef");
}

/// Lists with a common beginning compare as what follows it.
proof fn lemma_common_bytes(head: Seq<u8>, x: Seq<u8>, y: Seq<u8>)
    ensures
        bytes_less(head + x, head + y) == bytes_less(x, y),
    decreases head.len(),
{
    if head.len() == 0 {
        assert(head + x =~= x);
        assert(head + y =~= y);
    } else {
        assert((head + x).drop_first() =~= head.drop_first() + x);
        assert((head + y).drop_first() =~= head.drop_first() + y);
        lemma_common_bytes(head.drop_first(), x, y);
    }
}

/// Byte strings compare by the first byte in which they differ; if one goes on where the
/// other ends, it comes after. The other way round the answer is the opposite.
pub proof fn bytes_compare_by_the_first_difference(
    a: &[u8],
    b: &[u8],
    r: TextOrder,
    back: TextOrder,
    head: Seq<u8>,
    x: Seq<u8>,
    y: Seq<u8>,
)
    requires
        call_ensures(order_bytes, (a, b), r),
        call_ensures(order_bytes, (b, a), back),
        a@ == head + x,
        b@ == head + y,
    ensures
        y.len() > 0 && (x.len() == 0 || x[0] < y[0]) ==> r == TextOrder::Before && back
            == TextOrder::After,
        r == TextOrder::Same <==> a@ == b@,
        back == TextOrder::Same <==> a@ == b@,
{
    lemma_common_bytes(head, x, y);
}

/// Texts compare as their UTF-8 bytes do, and are the same only if all their characters are.
pub proof fn texts_compare_as_bytes(
    a: &str,
    b: &str,
    x: &[u8],
    y: &[u8],
    r: TextOrder,
    s: TextOrder,
    same: bool,
)
    requires
        x@ == encode_utf8(a@),
        y@ == encode_utf8(b@),
        call_ensures(order_text, (a, b), r),
        call_ensures(order_bytes, (x, y), s),
        call_ensures(same_text, (a, b), same),
    ensures
        r == s,
        same <==> a@ == b@,
        r == TextOrder::Same <==> a@ == b@,
{
}

/// Texts are joined one behind the other, and taken apart into their characters.
pub proof fn texts_are_joined(
    a: &str,
    b: &str,
    c: &str,
    two: String,
    three: String,
    chars: Vec<char>,
)
    requires
        call_ensures(join2, (a, b), two),
        call_ensures(join3, (a, b, c), three),
        call_ensures(chars_of, (a,), chars),
    ensures
        two@ == a@ + b@,
        three@ == two@ + c@,
        chars@ == a@,
{
}

/// Every text, number and byte string can be written, and every buffer read.
pub proof fn pieces_take_every_input(
    buf: &mut Vec<u8>,
    n: u32,
    m: u64,
    s: &str,
    b: &[u8],
    list: &Vec<String>,
    byte: u8,
)
    ensures
        call_requires(put_u32, (buf, n)),
        call_requires(put_u64, (buf, m)),
        call_requires(put_text, (buf, s)),
        call_requires(put_bytes, (buf, b)),
        call_requires(put_texts, (buf, list)),
        call_requires(encode_method_name, (s, buf)),
        call_requires(encode_stream_id, (m, buf)),
        call_requires(decode_method_name, (b,)),
        call_requires(decode_stream_id, (b,)),
        call_requires(get_u32, (b,)),
        call_requires(get_u64, (b,)),
        call_requires(get_text, (b,)),
        call_requires(get_bytes, (b,)),
        call_requires(get_texts, (b,)),
        call_requires(decimal_text, (m,)),
        call_requires(hex2_text, (byte,)),
        call_requires(order_text, (s, s)),
{
}

} // verus!
