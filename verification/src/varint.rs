//! Little-endian base-128 integers.
//!
//! Every length, tag and identifier on the wire is one of these: seven bits per
//! byte, least significant first, the high bit set on every byte but the last.
use vstd::prelude::*;

verus! {

/// The shortest encoding of `v`.
pub open spec fn varint(v: nat) -> Seq<u8>
    decreases v,
{
    if v < 128 {
        seq![v as u8]
    } else {
        seq![(128 + v % 128) as u8] + varint(v / 128)
    }
}

/// How many bytes at the front of `b` announce that another one follows.
pub open spec fn varint_run(b: Seq<u8>) -> nat
    decreases b.len(),
{
    if b.len() == 0 || b[0] < 128 {
        0
    } else {
        1 + varint_run(b.drop_first())
    }
}

/// The number spelled by the first `digits` bytes of `b`.
pub open spec fn varint_value(b: Seq<u8>, digits: nat) -> nat
    decreases digits,
{
    if digits == 0 {
        0
    } else {
        (b[0] % 128) as nat + 128 * varint_value(b.drop_first(), (digits - 1) as nat)
    }
}

/// 128 to the power of `n`.
pub open spec fn pow128(n: nat) -> nat
    decreases n,
{
    if n == 0 {
        1
    } else {
        128 * pow128((n - 1) as nat)
    }
}

/// A run never passes the end, and what ends it has the high bit clear.
pub proof fn lemma_varint_run(b: Seq<u8>)
    ensures
        varint_run(b) <= b.len(),
        varint_run(b) < b.len() ==> b[varint_run(b) as int] < 128,
        forall|i: int| 0 <= i < varint_run(b) ==> #[trigger] b[i] >= 128,
    decreases b.len(),
{
    if b.len() > 0 && b[0] >= 128 {
        let t = b.drop_first();
        lemma_varint_run(t);
        assert forall|i: int| 0 <= i < varint_run(b) implies #[trigger] b[i] >= 128 by {
            if i > 0 {
                assert(t[i - 1] >= 128);
            }
        }
    }
}

/// The first byte without the high bit ends the run.
pub proof fn lemma_varint_run_is(b: Seq<u8>, n: nat)
    requires
        n <= b.len(),
        n < b.len() ==> b[n as int] < 128,
        forall|i: int| 0 <= i < n ==> #[trigger] b[i] >= 128,
    ensures
        varint_run(b) == n,
    decreases n,
{
    if n > 0 {
        let t = b.drop_first();
        assert forall|i: int| 0 <= i < n - 1 implies #[trigger] t[i] >= 128 by {
            assert(b[i + 1] >= 128);
        }
        lemma_varint_run_is(t, (n - 1) as nat);
    }
}

/// Reading one more digit adds it at the next power of 128.
pub proof fn lemma_varint_value_step(b: Seq<u8>, n: nat)
    requires
        n < b.len(),
    ensures
        varint_value(b, n + 1) == varint_value(b, n) + (b[n as int] % 128) as nat * pow128(n),
    decreases n,
{
    if n == 0 {
        assert(varint_value(b.drop_first(), 0) == 0);
        assert(pow128(0) == 1);
        assert(varint_value(b, 1) == (b[0] % 128) as nat);
        assert((b[0] % 128) as nat * pow128(0) == (b[0] % 128) as nat) by (nonlinear_arith)
            requires
                pow128(0) == 1,
        ;
    } else {
        let t = b.drop_first();
        lemma_varint_value_step(t, (n - 1) as nat);
        let d = (b[n as int] % 128) as nat;
        let p = pow128((n - 1) as nat);
        assert(t[n - 1] == b[n as int]);
        assert(128 * (d * p) == d * (128 * p)) by (nonlinear_arith);
        assert(pow128(n) == 128 * p);
        assert(varint_value(b, n + 1) == (b[0] % 128) as nat + 128 * varint_value(t, n));
        assert(varint_value(b, n) == (b[0] % 128) as nat + 128 * varint_value(t, (n - 1) as nat));
        assert(varint_value(t, n) == varint_value(t, (n - 1) as nat) + d * p);
        assert(128 * varint_value(t, n) == 128 * varint_value(t, (n - 1) as nat) + 128 * (d * p));
        assert(d * pow128(n) == 128 * (d * p));
    }
}

/// `n` digits stay below 128 to the power of `n`.
pub proof fn lemma_varint_value_bound(b: Seq<u8>, n: nat)
    ensures
        varint_value(b, n) < pow128(n),
    decreases n,
{
    if n > 0 {
        lemma_varint_value_bound(b.drop_first(), (n - 1) as nat);
    }
}

/// Powers of 128 grow with the exponent.
pub proof fn lemma_pow128_monotone(a: nat, b: nat)
    requires
        a <= b,
    ensures
        pow128(a) <= pow128(b),
    decreases b,
{
    if a < b {
        lemma_pow128_monotone(a, (b - 1) as nat);
    }
}

/// A number below `top` times 128 to the power of `width - 1` takes at most
/// `width` bytes, and a last byte in that position stays below `top`.
pub proof fn lemma_varint_width(v: nat, width: nat, top: nat)
    requires
        width >= 1,
        1 <= top <= 128,
        v < top * pow128((width - 1) as nat),
    ensures
        1 <= varint(v).len() <= width,
        varint(v).len() == width ==> varint(v)[width - 1] < top,
    decreases width,
{
    let p = pow128((width - 1) as nat);
    if width == 1 {
        assert(top * p == top) by (nonlinear_arith)
            requires
                p == 1,
        ;
    } else if v >= 128 {
        let q = pow128((width - 2) as nat);
        assert(top * p == 128 * (top * q)) by (nonlinear_arith)
            requires
                p == 128 * q,
        ;
        lemma_varint_width(v / 128, (width - 1) as nat, top);
    }
}

/// An encoding reads back as the number it was made from, whatever follows it.
pub proof fn lemma_varint_roundtrip(v: nat, rest: Seq<u8>)
    ensures
        varint(v).len() >= 1,
        varint_run(varint(v) + rest) == varint(v).len() - 1,
        varint_value(varint(v) + rest, varint(v).len()) == v,
        (varint(v) + rest).skip(varint(v).len() as int) == rest,
    decreases v,
{
    let b = varint(v) + rest;
    if v < 128 {
        assert(b[0] == v as u8);
        assert(varint_value(b.drop_first(), 0) == 0);
    } else {
        lemma_varint_roundtrip(v / 128, rest);
        assert(b[0] == (128 + v % 128) as u8);
        assert(b.drop_first() =~= varint(v / 128) + rest);
    }
    assert(b.skip(varint(v).len() as int) =~= rest);
}

/// Bytes that follow an integer do not change it.
pub proof fn lemma_varint_extend(b: Seq<u8>, more: Seq<u8>)
    requires
        varint_run(b) < b.len(),
    ensures
        varint_run(b + more) == varint_run(b),
        varint_value(b + more, varint_run(b) + 1) == varint_value(b, varint_run(b) + 1),
{
    lemma_varint_run(b);
    let n = varint_run(b);
    assert forall|i: int| 0 <= i < n implies #[trigger] (b + more)[i] >= 128 by {
        assert(b[i] >= 128);
    }
    lemma_varint_run_is(b + more, n);
    lemma_varint_value_prefix(b, more, n + 1);
}

/// The number spelled by some bytes does not depend on those behind them.
pub proof fn lemma_varint_value_prefix(b: Seq<u8>, more: Seq<u8>, digits: nat)
    requires
        digits <= b.len(),
    ensures
        varint_value(b + more, digits) == varint_value(b, digits),
    decreases digits,
{
    if digits > 0 {
        assert((b + more).drop_first() =~= b.drop_first() + more);
        lemma_varint_value_prefix(b.drop_first(), more, (digits - 1) as nat);
    }
}

/// The powers that bound 32-bit and 64-bit numbers.
pub proof fn lemma_pow128_values()
    ensures
        pow128(0) == 1,
        pow128(4) == 0x1000_0000,
        pow128(8) == 0x100_0000_0000_0000,
        pow128(9) == 0x8000_0000_0000_0000,
        pow128(10) == 128 * 0x8000_0000_0000_0000,
{
    reveal_with_fuel(pow128, 11);
}

} // verus!
