//! Single-precision numbers as bit patterns, with their numeric order.
use vstd::arithmetic::power2::{
    lemma2_to64, lemma_pow2_adds, lemma_pow2_pos, lemma_pow2_strictly_increases, pow2,
};
use vstd::prelude::*;

verus! {

/// Bit pattern of `0.0`.
pub const ZERO_BITS: u32 = 0x0000_0000;

/// Bit pattern of `1.0`.
pub const ONE_BITS: u32 = 0x3f80_0000;

/// Bit pattern of `-1.0`.
pub const MINUS_ONE_BITS: u32 = 0xbf80_0000;

/// Bit pattern of positive infinity; a larger magnitude is not a number.
pub const INFINITY_BITS: u32 = 0x7f80_0000;

/// Bit pattern of negative zero: the sign alone.
pub const SIGN_BITS: u32 = 0x8000_0000;

/// An IEEE 754 single-precision number, held by its bits.
#[derive(Clone, Copy, Debug, PartialEq, Eq, Structural)]
pub struct Single {
    pub bits: u32,
}

/// The single-precision number with these bits.
pub open spec fn single(bits: u32) -> Single {
    Single { bits }
}

impl Single {
    /// The bits below the sign.
    pub open spec fn magnitude(self) -> int {
        if self.bits >= SIGN_BITS {
            self.bits - SIGN_BITS
        } else {
            self.bits as int
        }
    }

    /// Whether the bits encode no number.
    pub open spec fn is_nan_spec(self) -> bool {
        self.magnitude() > INFINITY_BITS
    }

    /// An integer that orders numbers as their values do: the magnitude bits of
    /// a single grow with its absolute value, and both zeros are `0`.
    pub open spec fn order(self) -> int {
        if self.bits >= SIGN_BITS {
            -self.magnitude()
        } else {
            self.magnitude()
        }
    }

    /// The numeric `<`, false as soon as one side is not a number.
    pub open spec fn lt(self, other: Single) -> bool {
        !self.is_nan_spec() && !other.is_nan_spec() && self.order() < other.order()
    }

    /// The numeric `<=`, false as soon as one side is not a number.
    pub open spec fn le(self, other: Single) -> bool {
        !self.is_nan_spec() && !other.is_nan_spec() && self.order() <= other.order()
    }

    /// The nearest value between `low` and `high`; what is not a number stays.
    pub open spec fn clamp_spec(self, low: Single, high: Single) -> Single {
        if self.lt(low) {
            low
        } else if high.lt(self) {
            high
        } else {
            self
        }
    }

    /// The single-precision number with these bits.
    pub fn from_bits(bits: u32) -> (result: Single)
        ensures
            result == single(bits),
            result.bits == bits,
    {
        Single { bits }
    }

    /// The bits of the number.
    pub fn to_bits(self) -> (bits: u32)
        ensures
            self == single(bits),
            self.bits == bits,
    {
        self.bits
    }

    /// Whether the bits encode no number.
    pub fn is_nan(self) -> (result: bool)
        ensures
            result == self.is_nan_spec(),
    {
        if self.bits >= SIGN_BITS {
            self.bits - SIGN_BITS > INFINITY_BITS
        } else {
            self.bits > INFINITY_BITS
        }
    }

    /// An integer that orders numbers as their values do.
    pub fn order_key(self) -> (key: i64)
        ensures
            key == self.order(),
    {
        if self.bits >= SIGN_BITS {
            -((self.bits - SIGN_BITS) as i64)
        } else {
            self.bits as i64
        }
    }

    /// The numeric `<`.
    pub fn less_than(self, other: Single) -> (result: bool)
        ensures
            result == self.lt(other),
    {
        !self.is_nan() && !other.is_nan() && self.order_key() < other.order_key()
    }

    /// The numeric `<=`.
    pub fn at_most(self, other: Single) -> (result: bool)
        ensures
            result == self.le(other),
    {
        !self.is_nan() && !other.is_nan() && self.order_key() <= other.order_key()
    }

    /// Restricts the number to the range from `low` to `high`.
    pub fn clamp(self, low: Single, high: Single) -> (result: Single)
        requires
            low.le(high),
        ensures
            result == self.clamp_spec(low, high),
            self.lt(low) ==> result == low,
            high.lt(self) ==> result == high,
            !self.lt(low) && !high.lt(self) ==> result == self,
    {
        if self.less_than(low) {
            low
        } else if high.less_than(self) {
            high
        } else {
            self
        }
    }
}

/// The value restricted to the range from `0.0` to `1.0`.
pub open spec fn clamp01_spec(value: Single) -> Single {
    value.clamp_spec(single(ZERO_BITS), single(ONE_BITS))
}

/// Restricts a value to the range from `0.0` to `1.0`.
pub fn clamp01(value: Single) -> (result: Single)
    ensures
        result == clamp01_spec(value),
{
    value.clamp(Single { bits: ZERO_BITS }, Single { bits: ONE_BITS })
}

/// A clamped number lies in the range, clamping a number of the range changes
/// nothing, and clamping twice is clamping once.
pub proof fn law_clamp(value: Single, low: Single, high: Single)
    requires
        low.le(high),
    ensures
        !value.is_nan_spec() ==> low.le(value.clamp_spec(low, high)) && value.clamp_spec(
            low,
            high,
        ).le(high),
        low.le(value) && value.le(high) ==> value.clamp_spec(low, high) == value,
        value.is_nan_spec() ==> value.clamp_spec(low, high) == value,
        value.clamp_spec(low, high).clamp_spec(low, high) == value.clamp_spec(low, high),
{
}

/// On numbers `<=` is a total order up to the sign of zero, and `<` is its
/// strict part.
pub proof fn law_order_is_total(a: Single, b: Single, c: Single)
    requires
        !a.is_nan_spec(),
        !b.is_nan_spec(),
        !c.is_nan_spec(),
    ensures
        a.le(a),
        a.le(b) || b.le(a),
        a.le(b) && b.le(c) ==> a.le(c),
        a.lt(b) <==> !b.le(a),
        a.le(b) && b.le(a) ==> a == b || (a.magnitude() == 0 && b.magnitude() == 0),
{
}

/// The number times two to the power of 150, which is a whole number: a significand
/// of 24 bits, the first of them one, times a power of two, or a smaller significand
/// times the least power. Infinity exceeds every other number.
pub open spec fn scaled_value(number: Single) -> int {
    let exponent = (number.bits / 0x80_0000) % 0x100;
    let fraction = number.bits % 0x80_0000;
    let absolute = if exponent == 0 {
        2 * fraction
    } else {
        (0x80_0000 + fraction) * pow2(exponent as nat)
    };
    if number.bits / 0x8000_0000 == 1 {
        -absolute
    } else {
        absolute
    }
}

/// Numbers compare as their values do, and what compares with nothing is exactly
/// what has the largest exponent and a fraction.
pub proof fn law_order_is_numeric(a: Single, b: Single)
    ensures
        a.is_nan_spec() <==> (a.bits / 0x80_0000) % 0x100 == 0xff && a.bits % 0x80_0000 != 0,
        a.is_nan_spec() || b.is_nan_spec() ==> !a.lt(b) && !a.le(b),
        !a.is_nan_spec() && !b.is_nan_spec() ==> {
            &&& a.lt(b) <==> scaled_value(a) < scaled_value(b)
            &&& a.le(b) <==> scaled_value(a) <= scaled_value(b)
        },
{
    let (m, n) = (a.magnitude(), b.magnitude());
    lemma_magnitude_grows(m, n);
    lemma_magnitude_grows(n, m);
    lemma_magnitude_grows(0, m);
    lemma_magnitude_grows(0, n);
}

/// The value of the magnitude bits.
spec fn absolute_value(magnitude: int) -> int {
    let exponent = magnitude / 0x80_0000;
    let fraction = magnitude % 0x80_0000;
    if exponent == 0 {
        2 * fraction
    } else {
        (0x80_0000 + fraction) * pow2(exponent as nat)
    }
}

proof fn lemma_magnitude_grows(a: int, b: int)
    requires
        0 <= a < 0x8000_0000,
        0 <= b < 0x8000_0000,
    ensures
        a < b ==> absolute_value(a) < absolute_value(b),
{
    let (e, f) = (a / 0x80_0000, a % 0x80_0000);
    let (g, h) = (b / 0x80_0000, b % 0x80_0000);
    if a < b {
        lemma_pow2_pos(e as nat);
        lemma_pow2_pos(g as nat);
        let (p, q) = (pow2(e as nat) as int, pow2(g as nat) as int);
        if e == g {
            assert((0x80_0000 + f) * p < (0x80_0000 + h) * p) by (nonlinear_arith)
                requires
                    f < h,
                    p > 0,
            ;
        } else {
            if e + 1 < g {
                lemma_pow2_strictly_increases((e + 1) as nat, g as nat);
            }
            lemma_pow2_adds(e as nat, 1);
            lemma2_to64();
            assert(pow2((e + 1) as nat) == 2 * p) by (nonlinear_arith)
                requires
                    pow2((e + 1) as nat) == p * pow2(1),
                    pow2(1) == 2,
            ;
            assert((0x80_0000 + f) * p < (0x80_0000 + h) * q) by (nonlinear_arith)
                requires
                    0 <= f < 0x80_0000,
                    0 <= h,
                    p > 0,
                    2 * p <= q,
            ;
            assert(q >= 2 ==> (0x80_0000 + h) * q >= 0x100_0000) by (nonlinear_arith)
                requires
                    0 <= h,
            ;
        }
    }
}

/// Restricting a number to the range from `0.0` to `1.0` changes exactly the numbers
/// outside of it, to the end that they lie beyond.
pub proof fn law_clamp01(number: Single)
    requires
        !number.is_nan_spec(),
    ensures
        scaled_value(number) < scaled_value(Single { bits: 0 }) ==> clamp01_spec(number).bits == 0,
        scaled_value(number) > scaled_value(Single { bits: 0x3f80_0000 }) ==> clamp01_spec(
            number,
        ).bits == 0x3f80_0000,
        scaled_value(Single { bits: 0 }) <= scaled_value(number) <= scaled_value(
            Single { bits: 0x3f80_0000 },
        ) ==> clamp01_spec(number) == number,
{
    law_order_is_numeric(number, Single { bits: 0 });
    law_order_is_numeric(Single { bits: 0x3f80_0000 }, number);
}

/// A number is its bits, and what lies outside of a range is restricted to the end that it lies
/// beyond.
pub proof fn law_restricting_moves_to_the_nearer_end(
    bits: u32,
    number: Single,
    low: Single,
    high: Single,
)
    requires
        low.le(high),
    ensures
        single(bits).bits == bits,
        number.lt(low) ==> number.clamp_spec(low, high) == low,
        high.lt(number) ==> number.clamp_spec(low, high) == high,
{
}

} // verus!
