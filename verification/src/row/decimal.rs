//! Decimal numbers, as an unscaled integer with a precision and a scale.

use vstd::prelude::*;

use crate::error::{Error, ErrorView, Result};
use crate::metadata::datatype::DecimalType;
use crate::text::{self, concat3, i64_to_text};

verus! {

/// The largest precision at which an unscaled value fits into 64 bits.
pub const MAX_COMPACT_PRECISION: u32 = 18;

/// The number `unscaled / 10^scale`, of at most `precision` digits.
#[derive(Debug, Clone, Copy, PartialEq, Eq, PartialOrd, Ord, Hash, Structural)]
pub struct Decimal {
    unscaled: i128,
    precision: u32,
    scale: u32,
}

/// A [`Decimal`] as a value.
pub struct DecimalView {
    pub unscaled: int,
    pub precision: u32,
    pub scale: u32,
}

impl View for Decimal {
    type V = DecimalView;

    closed spec fn view(&self) -> DecimalView {
        DecimalView {
            unscaled: self.unscaled as int,
            precision: self.precision,
            scale: self.scale,
        }
    }
}

pub open spec fn pow10(n: nat) -> nat
    decreases n,
{
    if n == 0 {
        1
    } else {
        10 * pow10((n - 1) as nat)
    }
}

/// The bytes of an integer in two's complement, most significant first, and no
/// more of them than are needed.
pub open spec fn minimal_bytes(x: int) -> Seq<u8>
    decreases
            (if x < 0 {
                -x
            } else {
                x
            }),
{
    if -128 <= x < 128 {
        seq![(x % 256) as u8]
    } else {
        minimal_bytes(x / 256).push((x % 256) as u8)
    }
}

/// The number that bytes continue `init` to, most significant first.
pub open spec fn be_value(init: int, bytes: Seq<u8>) -> int
    decreases bytes.len(),
{
    if bytes.len() == 0 {
        init
    } else {
        256 * be_value(init, bytes.drop_last()) + bytes.last()
    }
}

/// What bytes in two's complement continue, by the sign that they start with.
pub open spec fn sign_of(bytes: Seq<u8>) -> int {
    if bytes.len() > 0 && bytes[0] >= 128 {
        -1
    } else {
        0
    }
}

/// The number that bytes are in two's complement, most significant first.
pub open spec fn signed_value(bytes: Seq<u8>) -> int {
    be_value(sign_of(bytes), bytes)
}

/// An integer comes back from its bytes.
pub proof fn minimal_bytes_read_back(x: int)
    ensures
        signed_value(minimal_bytes(x)) == x,
        sign_of(minimal_bytes(x)) == if x < 0 { -1int } else { 0int },
        minimal_bytes(x).len() > 0,
    decreases
            (if x < 0 {
                -x
            } else {
                x
            }),
{
    let b = minimal_bytes(x);
    if -128 <= x < 128 {
        assert(b.drop_last() =~= Seq::<u8>::empty());
        assert(be_value(sign_of(b), b.drop_last()) == sign_of(b));
    } else {
        minimal_bytes_read_back(x / 256);
        let front = minimal_bytes(x / 256);
        assert(b.drop_last() =~= front);
        assert(b[0] == front[0]);
    }
}

proof fn lemma_pow10_bound(m: nat, n: nat)
    requires
        m <= n,
    ensures
        pow10(m) <= pow10(n),
    decreases n,
{
    if m < n {
        lemma_pow10_bound(m, (n - 1) as nat);
    }
}

proof fn lemma_pow10_38()
    ensures
        pow10(38) == 100_000_000_000_000_000_000_000_000_000_000_000_000,
{
    reveal_with_fuel(pow10, 39);
}

/// A magnitude that is too large stays too large with more bytes.
proof fn lemma_too_large(init: int, bytes: Seq<u8>, n: int, limit: int)
    requires
        0 <= n <= bytes.len(),
        limit >= 2,
        be_value(init, bytes.take(n)) >= limit || be_value(init, bytes.take(n)) <= -limit,
    ensures
        be_value(init, bytes) >= limit || be_value(init, bytes) <= -limit,
    decreases bytes.len(),
{
    if n == bytes.len() {
        assert(bytes.take(n) =~= bytes);
    } else {
        assert(bytes.drop_last().take(n) =~= bytes.take(n));
        lemma_too_large(init, bytes.drop_last(), n, limit);
    }
}

fn power_of_ten(n: u32) -> (r: i128)
    requires
        n <= 38,
    ensures
        r == pow10(n as nat),
{
    let mut r: i128 = 1;
    let mut i: u32 = 0;
    while i < n
        invariant
            i <= n <= 38,
            r == pow10(i as nat),
        decreases n - i,
    {
        proof {
            lemma_pow10_38();
            lemma_pow10_bound((i + 1) as nat, 38);
        }
        r = r * 10;
        i = i + 1;
    }
    r
}

/// The decimal of an unscaled value, or why there is none.
pub open spec fn decimal_of(unscaled: int, precision: u32, scale: u32) -> core::result::Result<
    DecimalView,
    ErrorView,
> {
    if !DecimalType::admits(precision, scale) {
        Err(
            ErrorView::IllegalArgument(
                "Decimal precision must be between 1 and 38, and its scale at most the precision"@,
            ),
        )
    } else if -(pow10(precision as nat) as int) < unscaled < pow10(precision as nat) {
        Ok(DecimalView { unscaled, precision, scale })
    } else {
        Err(
            ErrorView::IllegalArgument(
                "Decimal precision overflow: value does not fit into "@ + text::int_text(
                    precision as int,
                ) + " digits"@,
            ),
        )
    }
}

fn overflow_error(precision: u32) -> (r: Error)
    ensures
        r@ == ErrorView::IllegalArgument(
            "Decimal precision overflow: value does not fit into "@ + text::int_text(
                precision as int,
            ) + " digits"@,
        ),
{
    Error::illegal_argument(
        concat3(
            "Decimal precision overflow: value does not fit into ",
            i64_to_text(precision as i64).as_str(),
            " digits",
        ),
    )
}

fn push_minimal(out: &mut Vec<u8>, x: i128)
    ensures
        final(out)@ == old(out)@ + minimal_bytes(x as int),
    decreases
            (if x < 0 {
                -(x as int)
            } else {
                x as int
            }),
{
    let ghost before = out@;
    let low: u8;
    let high: i128;
    if x >= 0 {
        low = (x % 256) as u8;
        high = x / 256;
    } else {
        let m: i128 = -(x + 1);
        low = (255 - m % 256) as u8;
        high = -(m / 256) - 1;
    }
    assert(low == x as int % 256 && high == x as int / 256) by {
        assert(x == 256 * high + low);
    }
    if x < -128 || x >= 128 {
        push_minimal(out, high);
    }
    out.push(low);
    assert(out@ =~= before + minimal_bytes(x as int));
}

impl Decimal {
    /// The decimal `unscaled / 10^scale`, where it has at most `precision` digits.
    pub fn from_unscaled(unscaled: i128, precision: u32, scale: u32) -> (r: Result<Self>)
        ensures
            match r {
                Ok(d) => decimal_of(unscaled as int, precision, scale) == Ok::<
                    DecimalView,
                    ErrorView,
                >(d@),
                Err(e) => decimal_of(unscaled as int, precision, scale) == Err::<
                    DecimalView,
                    ErrorView,
                >(e@),
            },
    {
        match DecimalType::new(precision, scale) {
            Ok(_) => {},
            Err(e) => {
                return Err(e);
            },
        }
        let limit: i128 = power_of_ten(precision);
        proof {
            lemma_pow10_38();
            lemma_pow10_bound(precision as nat, 38);
        }
        if unscaled < limit && unscaled > -limit {
            Ok(Decimal { unscaled, precision, scale })
        } else {
            Err(overflow_error(precision))
        }
    }

    /// Reads an unscaled value in two's complement, most significant byte first.
    pub fn from_unscaled_bytes(unscaled_bytes: &[u8], precision: u32, scale: u32) -> (r: Result<
        Self,
    >)
        ensures
            match r {
                Ok(d) => decimal_of(signed_value(unscaled_bytes@), precision, scale) == Ok::<
                    DecimalView,
                    ErrorView,
                >(d@),
                Err(e) => decimal_of(signed_value(unscaled_bytes@), precision, scale) == Err::<
                    DecimalView,
                    ErrorView,
                >(e@),
            },
    {
        match DecimalType::new(precision, scale) {
            Ok(_) => {},
            Err(e) => {
                return Err(e);
            },
        }
        let limit: i128 = power_of_ten(precision);
        let ghost init = sign_of(unscaled_bytes@);
        let mut value: i128 = if unscaled_bytes.len() > 0 && unscaled_bytes[0] >= 128 {
            -1
        } else {
            0
        };
        proof {
            lemma_pow10_38();
            lemma_pow10_bound(precision as nat, 38);
            lemma_pow10_bound(1, precision as nat);
            reveal_with_fuel(pow10, 2);
        }
        let mut i: usize = 0;
        assert(be_value(init, unscaled_bytes@.take(0)) == init);
        while i < unscaled_bytes.len()
            invariant
                i <= unscaled_bytes@.len(),
                DecimalType::admits(precision, scale),
                limit == pow10(precision as nat),
                10 <= limit <= 100_000_000_000_000_000_000_000_000_000_000_000_000,
                init == sign_of(unscaled_bytes@),
                value == be_value(init, unscaled_bytes@.take(i as int)),
                -limit < value < limit,
            decreases unscaled_bytes@.len() - i,
        {
            let b: u8 = unscaled_bytes[i];
            proof {
                assert(unscaled_bytes@.take(i + 1).drop_last() =~= unscaled_bytes@.take(i as int));
                assert(unscaled_bytes@.take(i + 1).last() == b);
            }
            // One step further the value is out of range for certain.
            let edge: i128 = limit / 256 + 1;
            if value >= edge || value <= -edge - 1 {
                proof {
                    lemma_too_large(init, unscaled_bytes@, i + 1, limit as int);
                }
                return Err(overflow_error(precision));
            }
            value = value * 256 + b as i128;
            if value >= limit || value <= -limit {
                proof {
                    lemma_too_large(init, unscaled_bytes@, i + 1, limit as int);
                }
                return Err(overflow_error(precision));
            }
            i = i + 1;
        }
        assert(unscaled_bytes@.take(i as int) =~= unscaled_bytes@);
        Ok(Decimal { unscaled: value, precision, scale })
    }

    /// The unscaled value in two's complement, most significant byte first, and
    /// no more bytes than are needed.
    pub fn to_unscaled_bytes(&self) -> (r: Vec<u8>)
        ensures
            r@ == minimal_bytes(self@.unscaled),
    {
        let mut out: Vec<u8> = Vec::new();
        push_minimal(&mut out, self.unscaled);
        assert(out@ =~= minimal_bytes(self@.unscaled));
        out
    }

    pub fn unscaled(&self) -> (r: i128)
        ensures
            r == self@.unscaled,
    {
        self.unscaled
    }

    pub fn precision(&self) -> (r: u32)
        ensures
            r == self@.precision,
    {
        self.precision
    }

    pub fn scale(&self) -> (r: u32)
        ensures
            r == self@.scale,
    {
        self.scale
    }
}

/// Unscaled values of a compact precision fit into 64 bits.
pub proof fn pow10_fits_long(precision: nat)
    requires
        precision <= MAX_COMPACT_PRECISION,
    ensures
        pow10(precision) <= i64::MAX,
{
    lemma_pow10_bound(precision, MAX_COMPACT_PRECISION as nat);
    assert(pow10(18) == 1_000_000_000_000_000_000) by {
        reveal_with_fuel(pow10, 19);
    }
}

proof fn lemma_minimal_len(x: int, n: nat, limit: int)
    requires
        limit >= 1,
        -128 * limit <= x < 128 * limit,
        crate::little_endian::span(n) == limit,
    ensures
        minimal_bytes(x).len() <= n + 1,
    decreases n,
{
    if n > 0 && !(-128 <= x < 128) {
        let m = (n - 1) as nat;
        crate::little_endian::span_positive(m);
        lemma_minimal_len(x / 256, m, crate::little_endian::span(m) as int);
    }
}

/// The unscaled value of a decimal takes at most 16 bytes.
pub proof fn minimal_bytes_of_decimal(unscaled: int, precision: nat)
    requires
        precision <= 38,
        -(pow10(precision) as int) < unscaled < pow10(precision),
    ensures
        minimal_bytes(unscaled).len() <= 16,
{
    lemma_pow10_38();
    lemma_pow10_bound(precision, 38);
    assert(crate::little_endian::span(15) == 0x1_0000_0000_0000_0000_0000_0000_0000_00) by {
        reveal_with_fuel(crate::little_endian::span, 16);
    }
    lemma_minimal_len(unscaled, 15, crate::little_endian::span(15) as int);
}

/// Bytes with the highest first are worth what they are worth in that order, from
/// the sign on: one more byte makes 256 times as much, and itself.
pub proof fn highest_byte_first(init: int, first: Seq<u8>, second: Seq<u8>)
    ensures
        be_value(init, first + second) == be_value(be_value(init, first), second),
        forall|b: u8| #[trigger] be_value(init, seq![b]) == 256 * init + b,
        first.len() > 0 && first[0] < 128 ==> signed_value(first) == be_value(0, first),
        first.len() > 0 && first[0] >= 128 ==> signed_value(first) == be_value(-1, first),
    decreases second.len(),
{
    assert forall|b: u8| #[trigger] be_value(init, seq![b]) == 256 * init + b by {
        assert(seq![b].drop_last() =~= Seq::<u8>::empty());
        reveal_with_fuel(be_value, 2);
    }
    if second.len() > 0 {
        highest_byte_first(init, first, second.drop_last());
        assert((first + second).drop_last() =~= first + second.drop_last());
    } else {
        assert(first + second =~= first);
    }
}

/// The bytes of an integer are as few as can tell it, its sign included.
pub proof fn no_byte_too_many(x: int)
    ensures
        ({
            let n = minimal_bytes(x).len();
            let s = crate::little_endian::span(n) as int;
            let fewer = crate::little_endian::span((n - 1) as nat) as int;
            &&& n > 0
            &&& -s <= 2 * x < s
            &&& n > 1 ==> !(-fewer <= 2 * x < fewer)
        }),
    decreases
            (if x < 0 {
                -x
            } else {
                x
            }),
{
    crate::little_endian::span_values();
    if !(-128 <= x < 128) {
        let y = x / 256;
        let m = minimal_bytes(y).len();
        no_byte_too_many(y);
        assert(minimal_bytes(x).len() == m + 1);
        assert(crate::little_endian::span(m + 1) == 256 * crate::little_endian::span(m));
        crate::little_endian::span_positive(m);
        if m > 1 {
            let f = (m - 1) as nat;
            assert(crate::little_endian::span(m) == 256 * crate::little_endian::span(f));
            crate::little_endian::span_positive(f);
            lemma_one_byte_more(
                x,
                crate::little_endian::span(m) as int,
                crate::little_endian::span(f) as int,
            );
        } else {
            lemma_one_byte_more(x, crate::little_endian::span(m) as int, 2);
        }
    }
}

proof fn lemma_one_byte_more(x: int, s: int, fewer: int)
    requires
        s % 2 == 0,
        fewer % 2 == 0,
    ensures
        -s <= 2 * (x / 256) < s ==> -(256 * s) <= 2 * x < 256 * s,
        !(-fewer <= 2 * (x / 256) < fewer) ==> !(-(256 * fewer) <= 2 * x < 256 * fewer),
{
}

/// A decimal has 1 to 38 digits, of which no more than it has come behind the
/// point, and holds every value that they can show and no other, as it is.
pub proof fn decimals_fit_their_digits(unscaled: int, precision: u32, scale: u32)
    ensures
        decimal_of(unscaled, precision, scale) is Ok <==> {
            &&& 1 <= precision <= 38
            &&& scale <= precision
            &&& -vstd::arithmetic::power::pow(10, precision as nat) < unscaled
                < vstd::arithmetic::power::pow(10, precision as nat)
        },
        decimal_of(unscaled, precision, scale) matches Ok(d) ==> d.unscaled == unscaled
            && d.precision == precision && d.scale == scale,
        decimal_of(unscaled, precision, scale) matches Err(e) ==> e is IllegalArgument,
{
    lemma_pow10_is_pow(precision as nat);
}

proof fn lemma_pow10_is_pow(n: nat)
    ensures
        pow10(n) == vstd::arithmetic::power::pow(10, n),
    decreases n,
{
    reveal(vstd::arithmetic::power::pow);
    if n > 0 {
        lemma_pow10_is_pow((n - 1) as nat);
    }
}

} // verus!
