//! Integers as bytes, least significant first, in two's complement.

use vstd::prelude::*;

verus! {

/// The `n` lowest bytes of an integer, least significant first. A negative
/// integer is taken in two's complement.
pub open spec fn le_bytes(x: int, n: nat) -> Seq<u8>
    decreases n,
{
    if n == 0 {
        Seq::empty()
    } else {
        seq![(x % 256) as u8] + le_bytes(x / 256, (n - 1) as nat)
    }
}

/// The number that bytes are, least significant first.
pub open spec fn le_value(bytes: Seq<u8>) -> nat
    decreases bytes.len(),
{
    if bytes.len() == 0 {
        0
    } else {
        bytes[0] as nat + 256 * le_value(bytes.drop_first())
    }
}

/// 256 to the power of `n`: how many numbers `n` bytes can tell apart.
pub open spec fn span(n: nat) -> nat
    decreases n,
{
    if n == 0 {
        1
    } else {
        256 * span((n - 1) as nat)
    }
}

/// The number that bytes are in two's complement, least significant first.
pub open spec fn le_signed(bytes: Seq<u8>) -> int {
    let v = le_value(bytes) as int;
    if 2 * v >= span(bytes.len()) {
        v - span(bytes.len())
    } else {
        v
    }
}

pub proof fn le_bytes_len(x: int, n: nat)
    ensures
        le_bytes(x, n).len() == n,
    decreases n,
{
    if n > 0 {
        le_bytes_len(x / 256, (n - 1) as nat);
    }
}

/// Bytes are a number below the number of values that they can tell apart.
pub proof fn le_value_bound(bytes: Seq<u8>)
    ensures
        le_value(bytes) < span(bytes.len()),
    decreases bytes.len(),
{
    if bytes.len() > 0 {
        le_value_bound(bytes.drop_first());
    }
}

/// The bytes of an integer are that integer, but for multiples of the number of
/// values that they can tell apart.
pub proof fn le_value_of_bytes(x: int, n: nat)
    ensures
        le_value(le_bytes(x, n)) == x % (span(n) as int),
    decreases n,
{
    span_positive(n);
    le_bytes_len(x, n);
    if n == 0 {
        assert(x % 1 == 0);
    } else {
        let m = (n - 1) as nat;
        span_positive(m);
        le_value_of_bytes(x / 256, m);
        assert(le_bytes(x, n).drop_first() =~= le_bytes(x / 256, m));
        let s = span(m) as int;
        assert(x % 256 + 256 * ((x / 256) % s) == x % (256 * s)) by (nonlinear_arith)
            requires
                s > 0,
        {
            let q = x / 256;
            let r = x % 256;
            let q2 = q / s;
            let r2 = q % s;
            assert(x == 256 * q + r);
            assert(q == s * q2 + r2);
            assert(x == (256 * s) * q2 + (256 * r2 + r)) by (nonlinear_arith)
                requires
                    x == 256 * q + r,
                    q == s * q2 + r2,
            ;
            assert(0 <= 256 * r2 + r < 256 * s) by (nonlinear_arith)
                requires
                    0 <= r < 256,
                    0 <= r2 < s,
            ;
            vstd::arithmetic::div_mod::lemma_fundamental_div_mod_converse(
                x,
                256 * s,
                q2,
                256 * r2 + r,
            );
        }
    }
}

pub proof fn span_positive(n: nat)
    ensures
        span(n) > 0,
        n > 0 ==> span(n) % 2 == 0,
    decreases n,
{
    if n > 0 {
        span_positive((n - 1) as nat);
    }
}

/// An integer that fits into `n` bytes in two's complement comes back from them.
pub proof fn le_signed_of_bytes(x: int, n: nat)
    requires
        n > 0,
        -(span(n) as int) <= 2 * x < span(n),
    ensures
        le_signed(le_bytes(x, n)) == x,
{
    le_value_of_bytes(x, n);
    le_bytes_len(x, n);
    span_positive(n);
    let s = span(n) as int;
    if x >= 0 {
        assert(x % s == x) by (nonlinear_arith)
            requires
                0 <= x < s,
        ;
    } else {
        assert(x % s == x + s) by {
            vstd::arithmetic::div_mod::lemma_fundamental_div_mod_converse(x, s, -1, x + s);
        }
    }
}

/// Bytes come back from the number that they are.
pub proof fn le_bytes_of_value(bytes: Seq<u8>)
    ensures
        le_bytes(le_value(bytes) as int, bytes.len()) == bytes,
    decreases bytes.len(),
{
    if bytes.len() > 0 {
        let rest = bytes.drop_first();
        le_bytes_of_value(rest);
        let v = le_value(bytes) as int;
        assert(v % 256 == bytes[0]);
        assert(v / 256 == le_value(rest));
        assert(le_bytes(v, bytes.len()) =~= bytes);
    } else {
        assert(le_bytes(0, 0) =~= bytes);
    }
}

/// Adding a multiple of the number of values that `n` bytes can tell apart
/// changes none of them.
pub proof fn le_bytes_wrap(x: int, k: int, n: nat)
    ensures
        le_bytes(x + k * span(n), n) == le_bytes(x, n),
    decreases n,
{
    if n > 0 {
        let m = (n - 1) as nat;
        let s = span(m) as int;
        le_bytes_wrap(x / 256, k, m);
        assert(k * (256 * s) == 256 * (k * s)) by (nonlinear_arith);
        let y = x + 256 * (k * s);
        assert(y % 256 == x % 256);
        assert(y / 256 == x / 256 + k * s);
    }
}

pub proof fn span_values()
    ensures
        span(1) == 0x100,
        span(2) == 0x1_0000,
        span(4) == 0x1_0000_0000,
        span(8) == 0x1_0000_0000_0000_0000,
{
    reveal_with_fuel(span, 9);
}

/// Appends the `n` lowest bytes of a number, least significant first.
fn push_le(out: &mut Vec<u8>, value: u64, n: usize)
    requires
        n <= 8,
    ensures
        final(out)@ == old(out)@ + le_bytes(value as int, n as nat),
    decreases n,
{
    let ghost before = out@;
    if n > 0 {
        out.push((value % 256) as u8);
        push_le(out, value / 256, n - 1);
        assert(out@ =~= before + le_bytes(value as int, n as nat));
    } else {
        assert(out@ =~= before + le_bytes(value as int, 0));
    }
}

/// An integer as an unsigned number with the same bits.
pub fn bits_of(value: i64) -> (r: u64)
    ensures
        r == value as int % 0x1_0000_0000_0000_0000,
{
    if value >= 0 {
        value as u64
    } else {
        let below: u64 = (-(value + 1)) as u64;
        0xffff_ffff_ffff_ffff - below
    }
}

pub fn i64_to_le(value: i64) -> (r: Vec<u8>)
    ensures
        r@ == le_bytes(value as int, 8),
{
    let mut out: Vec<u8> = Vec::new();
    let bits = bits_of(value);
    push_le(&mut out, bits, 8);
    proof {
        span_values();
        le_bytes_wrap(value as int, if value >= 0 { 0 } else { 1 }, 8);
        assert(out@ =~= le_bytes(bits as int, 8));
    }
    out
}

pub fn i16_to_le(value: i16) -> (r: Vec<u8>)
    ensures
        r@ == le_bytes(value as int, 2),
{
    let mut out: Vec<u8> = Vec::new();
    let bits: u64 = if value >= 0 {
        value as u64
    } else {
        (value as i64 + 0x1_0000) as u64
    };
    push_le(&mut out, bits, 2);
    proof {
        span_values();
        le_bytes_wrap(value as int, if value >= 0 { 0 } else { 1 }, 2);
        assert(out@ =~= le_bytes(bits as int, 2));
    }
    out
}

pub fn u32_to_le(value: u32) -> (r: Vec<u8>)
    ensures
        r@ == le_bytes(value as int, 4),
{
    let mut out: Vec<u8> = Vec::new();
    push_le(&mut out, value as u64, 4);
    assert(out@ =~= le_bytes(value as int, 4));
    out
}

pub fn u64_to_le(value: u64) -> (r: Vec<u8>)
    ensures
        r@ == le_bytes(value as int, 8),
{
    let mut out: Vec<u8> = Vec::new();
    push_le(&mut out, value, 8);
    assert(out@ =~= le_bytes(value as int, 8));
    out
}

/// Reads `n` bytes as a number, least significant first.
fn read_le(bytes: &[u8], start: usize, n: usize) -> (r: u64)
    requires
        n <= 8,
        start + n <= bytes@.len(),
    ensures
        r == le_value(bytes@.subrange(start as int, start + n)),
        r < span(n as nat),
    decreases n,
{
    let ghost part = bytes@.subrange(start as int, start + n);
    proof {
        le_value_bound(part);
    }
    if n == 0 {
        0
    } else {
        assert(start < bytes.len());
        let rest: u64 = read_le(bytes, start + 1, n - 1);
        proof {
            assert(part.drop_first() =~= bytes@.subrange(start + 1, start + n));
            span_at_most((n - 1) as nat, 7);
            span_values();
            assert(span(8) == 256 * span(7));
        }
        bytes[start] as u64 + 256 * rest
    }
}

proof fn span_at_most(m: nat, n: nat)
    requires
        m <= n,
    ensures
        span(m) <= span(n),
    decreases n,
{
    if m < n {
        span_at_most(m, (n - 1) as nat);
    }
}

/// Reads 8 bytes as an integer.
pub fn read_i64_at(bytes: &[u8], start: usize) -> (r: i64)
    requires
        start + 8 <= bytes@.len(),
    ensures
        r == le_signed(bytes@.subrange(start as int, start + 8)),
{
    let bits = read_le(bytes, start, 8);
    proof {
        span_values();
    }
    if bits >= 0x8000_0000_0000_0000 {
        let below: u64 = 0xffff_ffff_ffff_ffff - bits;
        -(below as i64) - 1
    } else {
        bits as i64
    }
}

/// Reads 4 bytes as an integer.
pub fn read_i32_at(bytes: &[u8], start: usize) -> (r: i32)
    requires
        start + 4 <= bytes@.len(),
    ensures
        r == le_signed(bytes@.subrange(start as int, start + 4)),
{
    let bits = read_le(bytes, start, 4);
    proof {
        span_values();
    }
    if bits >= 0x8000_0000 {
        (bits as i64 - 0x1_0000_0000) as i32
    } else {
        bits as i32
    }
}

/// Reads 2 bytes as an integer.
pub fn read_i16_at(bytes: &[u8], start: usize) -> (r: i16)
    requires
        start + 2 <= bytes@.len(),
    ensures
        r == le_signed(bytes@.subrange(start as int, start + 2)),
{
    let bits = read_le(bytes, start, 2);
    proof {
        span_values();
    }
    if bits >= 0x8000 {
        (bits as i64 - 0x1_0000) as i16
    } else {
        bits as i16
    }
}

/// Reads 4 bytes as a number.
pub fn read_u32_at(bytes: &[u8], start: usize) -> (r: u32)
    requires
        start + 4 <= bytes@.len(),
    ensures
        r == le_value(bytes@.subrange(start as int, start + 4)),
{
    let bits = read_le(bytes, start, 4);
    proof {
        span_values();
    }
    bits as u32
}

/// Reads 8 bytes as a number.
pub fn read_u64_at(bytes: &[u8], start: usize) -> (r: u64)
    requires
        start + 8 <= bytes@.len(),
    ensures
        r == le_value(bytes@.subrange(start as int, start + 8)),
{
    read_le(bytes, start, 8)
}

/// Bytes are worth what they are worth with the lowest first: those behind others
/// count for as many factors of 256 as stand before them.
pub proof fn bytes_have_their_place(first: Seq<u8>, second: Seq<u8>)
    ensures
        le_value(first + second) == le_value(first) + vstd::arithmetic::power::pow(
            256,
            first.len(),
        ) * le_value(second),
        forall|b: u8| #[trigger] le_value(seq![b]) == b,
        span(first.len()) == vstd::arithmetic::power::pow(256, first.len()),
    decreases first.len(),
{
    reveal(vstd::arithmetic::power::pow);
    assert forall|b: u8| #[trigger] le_value(seq![b]) == b by {
        assert(seq![b].drop_first() =~= Seq::<u8>::empty());
        reveal_with_fuel(le_value, 2);
    }
    if first.len() == 0 {
        assert(first + second =~= second);
    } else {
        let rest = first.drop_first();
        bytes_have_their_place(rest, second);
        assert((first + second).drop_first() =~= rest + second);
        let w = vstd::arithmetic::power::pow(256, rest.len());
        let v = le_value(second) as int;
        assert(256 * (w * v) == (256 * w) * v) by (nonlinear_arith);
    }
}

/// Read in two's complement, bytes are the one number in the range that they can
/// tell apart, half of it negative, that differs from their plain number by nothing
/// or by that whole range.
pub proof fn twos_complement(bytes: Seq<u8>)
    ensures
        -(span(bytes.len()) as int) <= 2 * le_signed(bytes) < span(bytes.len()),
        le_signed(bytes) == le_value(bytes) || le_signed(bytes) == le_value(bytes) - span(
            bytes.len(),
        ),
        le_bytes(le_signed(bytes), bytes.len()) == bytes,
{
    le_value_bound(bytes);
    le_bytes_of_value(bytes);
    let v = le_value(bytes) as int;
    le_bytes_wrap(v, -1, bytes.len());
    assert(v + (-1) * span(bytes.len()) == v - span(bytes.len()));
}

} // verus!
