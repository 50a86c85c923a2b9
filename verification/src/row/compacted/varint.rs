//! Numbers written seven bits to a byte, lowest first; all bytes but the last
//! have their highest bit set.

use vstd::prelude::*;

verus! {

/// The bytes of a number.
pub open spec fn varint(v: nat) -> Seq<u8>
    decreases v,
{
    if v < 128 {
        seq![v as u8]
    } else {
        seq![(v % 128 + 128) as u8] + varint(v / 128)
    }
}

/// The number at the start of bytes and how many bytes it takes, at most `max`.
pub open spec fn varint_at(bytes: Seq<u8>, max: nat) -> Option<(nat, nat)>
    decreases max,
{
    if bytes.len() == 0 || max == 0 {
        None
    } else if bytes[0] < 128 {
        Some((bytes[0] as nat, 1nat))
    } else {
        match varint_at(bytes.drop_first(), (max - 1) as nat) {
            Some((v, n)) => Some(((bytes[0] - 128 + 128 * v) as nat, n + 1)),
            None => None,
        }
    }
}

/// 128 to the power of `n`.
pub open spec fn pow128(n: nat) -> nat
    decreases n,
{
    if n == 0 {
        1
    } else {
        128 * pow128((n - 1) as nat)
    }
}

/// A number comes back from its bytes, whatever follows them.
pub proof fn varint_reads_back(v: nat, rest: Seq<u8>, max: nat)
    requires
        max > 0,
        v < pow128(max),
    ensures
        varint_at(varint(v) + rest, max) == Some((v, varint(v).len())),
        0 < varint(v).len() <= max,
    decreases max,
{
    let bytes = varint(v) + rest;
    if v < 128 {
        assert(bytes[0] == v);
    } else {
        assert(bytes[0] == v % 128 + 128);
        assert(bytes.drop_first() =~= varint(v / 128) + rest);
        assert(pow128(max) == 128 * pow128((max - 1) as nat));
        assert(v / 128 < pow128((max - 1) as nat));
        varint_reads_back(v / 128, rest, (max - 1) as nat);
    }
}

/// A number takes at least one byte, all of them there.
pub proof fn varint_at_bounds(bytes: Seq<u8>, max: nat)
    ensures
        varint_at(bytes, max) matches Some((v, n)) ==> 0 < n <= bytes.len() && n <= max && v
            < pow128(n),
    decreases max,
{
    if bytes.len() > 0 && max > 0 {
        varint_at_bounds(bytes.drop_first(), (max - 1) as nat);
        if bytes[0] < 128 {
            assert(pow128(1) == 128 * pow128(0));
        } else {
            match varint_at(bytes.drop_first(), (max - 1) as nat) {
                Some((v, n)) => {
                    assert(pow128(n + 1) == 128 * pow128(n));
                },
                None => {},
            }
        }
    }
}

pub proof fn pow128_values()
    ensures
        pow128(5) == 0x8_0000_0000,
        pow128(10) == 0x40_0000_0000_0000_0000,
{
    reveal_with_fuel(pow128, 11);
}

/// Appends the bytes of a number.
pub fn push_varint(out: &mut Vec<u8>, v: u64)
    ensures
        final(out)@ == old(out)@ + varint(v as nat),
    decreases v,
{
    let ghost before = out@;
    if v < 128 {
        out.push(v as u8);
    } else {
        out.push((v % 128 + 128) as u8);
        push_varint(out, v / 128);
    }
    assert(out@ =~= before + varint(v as nat));
}

/// Reads the number at a place, of at most `max` bytes, and gives the place
/// behind it.
pub fn read_varint(bytes: &[u8], start: usize, max: usize) -> (r: Option<(u128, usize)>)
    requires
        start <= bytes@.len(),
        max <= 10,
    ensures
        match r {
            Some((v, next)) => {
                &&& start < next <= bytes@.len()
                &&& varint_at(bytes@.skip(start as int), max as nat) == Some(
                    (v as nat, (next - start) as nat),
                )
            },
            None => varint_at(bytes@.skip(start as int), max as nat) is None,
        },
    decreases max,
{
    let ghost part = bytes@.skip(start as int);
    if start >= bytes.len() || max == 0 {
        return None;
    }
    let b: u8 = bytes[start];
    assert(part[0] == b);
    if b < 128 {
        return Some((b as u128, start + 1));
    }
    assert(part.drop_first() =~= bytes@.skip(start + 1));
    match read_varint(bytes, start + 1, max - 1) {
        Some((v, next)) => {
            proof {
                varint_at_bounds(part.drop_first(), (max - 1) as nat);
                pow128_at_most((next - start - 1) as nat, 9);
                pow128_values();
                assert(pow128(10) == 128 * pow128(9));
            }
            Some(((b - 128) as u128 + 128 * v, next))
        },
        None => None,
    }
}

proof fn pow128_at_most(m: nat, n: nat)
    requires
        m <= n,
    ensures
        pow128(m) <= pow128(n),
    decreases n,
{
    if m < n {
        pow128_at_most(m, (n - 1) as nat);
    }
}

/// A number is written seven bits to a byte, the lowest first, and every byte but
/// the last has its highest bit set.
pub proof fn seven_bits_to_a_byte(low: nat, high: nat)
    requires
        low < 128,
    ensures
        varint(low) == seq![low as u8],
        high > 0 ==> varint(low + 128 * high) == seq![(low + 128) as u8] + varint(high),
{
    if high > 0 {
        let v = low + 128 * high;
        assert(v % 128 == low);
        assert(v / 128 == high);
    }
}

/// A number ends with the first byte below 128, which has to come within the bytes
/// that are there and the number of bytes that is allowed; every byte counts with
/// its lowest seven bits.
pub proof fn numbers_end_with_a_low_byte(bytes: Seq<u8>, max: nat, n: int)
    requires
        0 <= n < bytes.len(),
        bytes[n] < 128,
        forall|i: int| 0 <= i < n ==> #[trigger] bytes[i] >= 128,
    ensures
        n < max ==> (varint_at(bytes, max) matches Some((v, used)) && used == n + 1),
        n >= max ==> varint_at(bytes, max) is None,
        max > 0 && n == 0 ==> varint_at(bytes, max) == Some((bytes[0] as nat, 1nat)),
        0 < n < max ==> match (
            varint_at(bytes, max),
            varint_at(bytes.skip(1), (max - 1) as nat),
        ) {
            (Some((v, _)), Some((high, _))) => v == bytes[0] % 128 + 128 * high,
            _ => false,
        },
    decreases n,
{
    if n > 0 {
        let rest = bytes.drop_first();
        assert(rest =~= bytes.skip(1));
        assert forall|i: int| 0 <= i < n - 1 implies #[trigger] rest[i] >= 128 by {
            assert(bytes[i + 1] >= 128);
        }
        assert(rest[n - 1] == bytes[n]);
        assert(bytes[0] >= 128);
        if max > 0 {
            numbers_end_with_a_low_byte(rest, (max - 1) as nat, n - 1);
        }
    }
}

/// Bytes that all have their highest bit set are no number.
pub proof fn high_bytes_are_no_number(bytes: Seq<u8>, max: nat)
    requires
        forall|i: int| 0 <= i < bytes.len() ==> #[trigger] bytes[i] >= 128,
    ensures
        varint_at(bytes, max) is None,
    decreases max,
{
    if bytes.len() > 0 && max > 0 {
        let rest = bytes.drop_first();
        assert forall|i: int| 0 <= i < rest.len() implies #[trigger] rest[i] >= 128 by {
            assert(bytes[i + 1] >= 128);
        }
        assert(bytes[0] >= 128);
        high_bytes_are_no_number(rest, (max - 1) as nat);
    }
}

} // verus!
