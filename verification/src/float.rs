//! Single and double precision numbers, held as their IEEE 754 encodings.
//!
//! Measurements arrive in single precision and thresholds are configured in
//! double precision. The library compares, widens and orders them by working on
//! the encodings, so that every comparison is an integer computation.

use vstd::arithmetic::power2::*;
use vstd::prelude::*;

pub mod encoding;

verus! {

/// Weight of the sign bit in a double precision encoding.
pub const DOUBLE_SIGN: u64 = 0x8000_0000_0000_0000;

/// Weight of the lowest exponent bit in a double precision encoding.
pub const DOUBLE_UNIT: u64 = 0x0010_0000_0000_0000;

/// Encoding of positive infinity in double precision.
pub const DOUBLE_INFINITY: u64 = 0x7ff0_0000_0000_0000;

/// Weight of the sign bit in a single precision encoding.
pub const SINGLE_SIGN: u32 = 0x8000_0000;

/// Weight of the lowest exponent bit in a single precision encoding.
pub const SINGLE_UNIT: u32 = 0x0080_0000;

/// Encoding of positive infinity in single precision.
pub const SINGLE_INFINITY: u32 = 0x7f80_0000;

/// A single precision number.
#[derive(Clone, Copy, Debug, PartialEq, Eq, Structural)]
pub struct Single {
    /// IEEE 754 binary32 encoding.
    pub bits: u32,
}

/// A double precision number.
#[derive(Clone, Copy, Debug, PartialEq, Eq, Structural)]
pub struct Double {
    /// IEEE 754 binary64 encoding.
    pub bits: u64,
}

/// The integer that an unsigned encoding denotes, in units of the smallest
/// positive number of its format: `unit` is the weight of the lowest exponent bit.
///
/// The encoding of infinity is given the number that would follow the largest
/// finite one, so that it compares above all of them.
pub open spec fn magnitude(encoding: int, unit: int) -> int {
    let exponent = encoding / unit;
    let fraction = encoding % unit;
    if exponent <= 0 {
        fraction
    } else {
        (unit + fraction) * pow2((exponent - 1) as nat)
    }
}

/// Whether `wide` is the number `narrow` in double precision.
///
/// One unit of the narrow format is `pow2(925)` units of the wide one. One thing that
/// is not a number is as good as another.
pub open spec fn is_widened(narrow: Single, wide: Double) -> bool {
    &&& wide.nan() == narrow.nan()
    &&& wide.infinite() == narrow.infinite()
    &&& wide.negative() == narrow.negative()
    &&& !narrow.nan() && !narrow.infinite() ==> wide.value() == narrow.value() * pow2(925)
}

impl Single {
    /// The encoding without its sign bit.
    pub open spec fn unsigned(self) -> int {
        self.bits as int % SINGLE_SIGN as int
    }

    /// Whether the sign bit is set.
    pub open spec fn negative(self) -> bool {
        self.bits >= SINGLE_SIGN
    }

    /// Whether this is not a number.
    pub open spec fn nan(self) -> bool {
        self.unsigned() > SINGLE_INFINITY
    }

    /// Whether this is one of the two infinities.
    pub open spec fn infinite(self) -> bool {
        self.unsigned() == SINGLE_INFINITY
    }

    /// The number in units of the smallest positive single precision number.
    pub open spec fn value(self) -> int {
        let size = magnitude(self.unsigned(), SINGLE_UNIT as int);
        if self.negative() {
            -size
        } else {
            size
        }
    }

    /// The same number in double precision.
    ///
    /// The conversion is exact. What is not a number stays not a number.
    pub fn widen(self) -> (wide: Double)
        ensures
            is_widened(self, wide),
    {
        let negative: bool = self.bits >= SINGLE_SIGN;
        let unsigned: u32 = self.bits % SINGLE_SIGN;
        let exponent: u32 = unsigned / SINGLE_UNIT;
        let fraction: u32 = unsigned % SINGLE_UNIT;
        let wide_unsigned: u64 = if unsigned >= SINGLE_INFINITY {
            DOUBLE_INFINITY + (fraction as u64) * 0x2000_0000
        } else if exponent > 0 {
            proof {
                lemma_widen_normal(exponent as int, fraction as int);
            }
            (exponent as u64 + 896) * DOUBLE_UNIT + (fraction as u64) * 0x2000_0000
        } else if fraction == 0 {
            assert(0 * pow2(925) == 0) by (nonlinear_arith);
            0
        } else {
            let mut shifted: u32 = fraction;
            let mut shift: u32 = 0;
            proof {
                lemma2_to64();
            }
            while shifted < SINGLE_UNIT
                invariant
                    0 < shifted < 2 * SINGLE_UNIT,
                    shifted == fraction * pow2(shift as nat),
                    fraction < SINGLE_UNIT,
                    shift <= 23,
                    shifted >= pow2(shift as nat),
                decreases 2 * SINGLE_UNIT - shifted,
            {
                proof {
                    lemma2_to64();
                    lemma_pow2_unfold((shift + 1) as nat);
                    assert(shifted * 2 == fraction * (2 * pow2(shift as nat))) by (nonlinear_arith)
                        requires
                            shifted == fraction * pow2(shift as nat),
                    ;
                    if shift >= 23 {
                        assert(shift == 23);
                        assert(false);
                    }
                }
                shifted = shifted * 2;
                shift = shift + 1;
            }
            proof {
                lemma_widen_subnormal(fraction as int, shifted as int, shift as int);
            }
            (897 - shift as u64) * DOUBLE_UNIT + ((shifted - SINGLE_UNIT) as u64) * 0x2000_0000
        };
        proof {
            let size = magnitude(self.unsigned(), SINGLE_UNIT as int);
            assert((-size) * pow2(925) == -(size * pow2(925))) by (nonlinear_arith);
            assert(wide_unsigned < DOUBLE_SIGN);
        }
        if negative {
            Double { bits: DOUBLE_SIGN + wide_unsigned }
        } else {
            Double { bits: wide_unsigned }
        }
    }
}

proof fn lemma_widen_normal(exponent: int, fraction: int)
    requires
        0 < exponent < 255,
        0 <= fraction < SINGLE_UNIT,
    ensures
        magnitude(
            (exponent + 896) * DOUBLE_UNIT + fraction * 0x2000_0000,
            DOUBLE_UNIT as int,
        ) == magnitude(exponent * SINGLE_UNIT + fraction, SINGLE_UNIT as int) * pow2(925),
        0 <= (exponent + 896) * DOUBLE_UNIT + fraction * 0x2000_0000 < DOUBLE_INFINITY,
{
    lemma2_to64();
    lemma2_to64_rest();
    let low = pow2((exponent - 1) as nat) as int;
    lemma_pow2_adds((exponent - 1) as nat, 896);
    lemma_pow2_adds(29, 896);
    let wide_low = pow2((exponent + 895) as nat) as int;
    assert(wide_low == low * pow2(896));
    assert((DOUBLE_UNIT + fraction * 0x2000_0000) * (low * pow2(896)) == ((SINGLE_UNIT + fraction)
        * low) * (0x2000_0000 * pow2(896))) by (nonlinear_arith)
        requires
            DOUBLE_UNIT == SINGLE_UNIT * 0x2000_0000,
    ;
}

proof fn lemma_widen_subnormal(fraction: int, shifted: int, shift: int)
    requires
        0 < fraction < SINGLE_UNIT,
        SINGLE_UNIT <= shifted < 2 * SINGLE_UNIT,
        0 <= shift <= 23,
        shifted == fraction * pow2(shift as nat),
    ensures
        magnitude(
            (897 - shift) * DOUBLE_UNIT + (shifted - SINGLE_UNIT) * 0x2000_0000,
            DOUBLE_UNIT as int,
        ) == magnitude(fraction, SINGLE_UNIT as int) * pow2(925),
        0 < (897 - shift) * DOUBLE_UNIT + (shifted - SINGLE_UNIT) * 0x2000_0000 < DOUBLE_INFINITY,
{
    lemma2_to64();
    lemma2_to64_rest();
    lemma_pow2_adds(29, 896);
    lemma_pow2_adds(shift as nat, (896 - shift) as nat);
    let high = pow2((896 - shift) as nat) as int;
    let low = pow2(shift as nat) as int;
    assert((shifted * 0x2000_0000) * high == fraction * (0x2000_0000 * (low * high)))
        by (nonlinear_arith)
        requires
            shifted == fraction * low,
    ;
}

impl Double {
    /// The encoding without its sign bit.
    pub open spec fn unsigned(self) -> int {
        self.bits as int % DOUBLE_SIGN as int
    }

    /// Whether the sign bit is set.
    pub open spec fn negative(self) -> bool {
        self.bits >= DOUBLE_SIGN
    }

    /// Whether this is not a number.
    pub open spec fn nan(self) -> bool {
        self.unsigned() > DOUBLE_INFINITY
    }

    /// Whether this is one of the two infinities.
    pub open spec fn infinite(self) -> bool {
        self.unsigned() == DOUBLE_INFINITY
    }

    /// The number in units of the smallest positive double precision number.
    pub open spec fn value(self) -> int {
        let size = magnitude(self.unsigned(), DOUBLE_UNIT as int);
        if self.negative() {
            -size
        } else {
            size
        }
    }

    /// Place of this encoding in the IEEE 754 total order, in which the negative
    /// encodings come first, from the largest to the smallest, and each zero has
    /// its own place.
    pub open spec fn rank(self) -> int {
        if self.negative() {
            -1 - self.unsigned()
        } else {
            self.unsigned()
        }
    }

    fn signed_encoding(self) -> (key: i128)
        ensures
            key == (if self.negative() {
                -self.unsigned()
            } else {
                self.unsigned()
            }),
    {
        let unsigned: u64 = self.bits % DOUBLE_SIGN;
        if self.bits >= DOUBLE_SIGN {
            -(unsigned as i128)
        } else {
            unsigned as i128
        }
    }

    /// Whether this is not a number.
    pub fn is_nan(self) -> (answer: bool)
        ensures
            answer == self.nan(),
    {
        self.bits % DOUBLE_SIGN > DOUBLE_INFINITY
    }

    /// Numeric less-than: false as soon as either side is not a number.
    pub fn less(self, other: Double) -> (answer: bool)
        ensures
            answer == (!self.nan() && !other.nan() && self.value() < other.value()),
    {
        proof {
            lemma_value_order(self, other);
        }
        !self.is_nan() && !other.is_nan() && self.signed_encoding() < other.signed_encoding()
    }

    /// Numeric less-than-or-equal: false as soon as either side is not a number.
    pub fn less_or_equal(self, other: Double) -> (answer: bool)
        ensures
            answer == (!self.nan() && !other.nan() && self.value() <= other.value()),
    {
        proof {
            lemma_value_order(other, self);
        }
        !self.is_nan() && !other.is_nan() && self.signed_encoding() <= other.signed_encoding()
    }

    /// Whether this comes before `other` in the IEEE 754 total order.
    pub fn precedes(self, other: Double) -> (answer: bool)
        ensures
            answer == (self.rank() < other.rank()),
    {
        let mine: u64 = self.bits % DOUBLE_SIGN;
        let theirs: u64 = other.bits % DOUBLE_SIGN;
        if self.bits >= DOUBLE_SIGN {
            other.bits < DOUBLE_SIGN || mine > theirs
        } else {
            other.bits < DOUBLE_SIGN && mine < theirs
        }
    }
}

/// A larger unsigned encoding denotes a larger number.
pub proof fn lemma_magnitude_increases(small: int, large: int, unit: int)
    requires
        0 <= small < large,
        unit > 0,
    ensures
        0 <= magnitude(small, unit) < magnitude(large, unit),
{
    let small_exponent = small / unit;
    let large_exponent = large / unit;
    let small_fraction = small % unit;
    let large_fraction = large % unit;
    vstd::arithmetic::div_mod::lemma_fundamental_div_mod(small, unit);
    vstd::arithmetic::div_mod::lemma_fundamental_div_mod(large, unit);
    vstd::arithmetic::div_mod::lemma_div_is_ordered(small, large, unit);
    vstd::arithmetic::div_mod::lemma_div_pos_is_pos(small, unit);
    vstd::arithmetic::div_mod::lemma_mod_bound(small, unit);
    vstd::arithmetic::div_mod::lemma_mod_bound(large, unit);
    if small_exponent == large_exponent {
        assert(small_fraction < large_fraction);
        if small_exponent > 0 {
            let scale = pow2((small_exponent - 1) as nat) as int;
            lemma_pow2_pos((small_exponent - 1) as nat);
            assert(0 <= (unit + small_fraction) * scale < (unit + large_fraction) * scale)
                by (nonlinear_arith)
                requires
                    0 <= small_fraction < large_fraction,
                    unit > 0,
                    scale > 0,
            ;
        }
    } else {
        assert(small_exponent < large_exponent);
        let large_scale = pow2((large_exponent - 1) as nat) as int;
        lemma_pow2_pos((large_exponent - 1) as nat);
        assert((unit + large_fraction) * large_scale >= unit * large_scale) by (nonlinear_arith)
            requires
                large_fraction >= 0,
                large_scale > 0,
        ;
        if small_exponent == 0 {
            assert(unit * large_scale >= unit) by (nonlinear_arith)
                requires
                    unit > 0,
                    large_scale > 0,
            ;
        } else {
            let small_scale = pow2((small_exponent - 1) as nat) as int;
            lemma_pow2_pos((small_exponent - 1) as nat);
            lemma_pow2_unfold(small_exponent as nat);
            if small_exponent < large_exponent - 1 {
                lemma_pow2_strictly_increases(small_exponent as nat, (large_exponent - 1) as nat);
            }
            assert(2 * small_scale <= large_scale);
            assert(0 <= (unit + small_fraction) * small_scale < unit * large_scale)
                by (nonlinear_arith)
                requires
                    0 <= small_fraction < unit,
                    small_scale > 0,
                    2 * small_scale <= large_scale,
            ;
        }
    }
}

/// Signed encodings order as the numbers they denote.
pub proof fn lemma_value_order(a: Double, b: Double)
    ensures
        ({
            let a_key = if a.negative() { -a.unsigned() } else { a.unsigned() };
            let b_key = if b.negative() { -b.unsigned() } else { b.unsigned() };
            a_key < b_key <==> a.value() < b.value()
        }),
{
    let unit = DOUBLE_UNIT as int;
    lemma_zero_magnitude();
    if 0 < a.unsigned() {
        lemma_magnitude_increases(0, a.unsigned(), unit);
    }
    if 0 < b.unsigned() {
        lemma_magnitude_increases(0, b.unsigned(), unit);
    }
    if a.unsigned() < b.unsigned() {
        lemma_magnitude_increases(a.unsigned(), b.unsigned(), unit);
    }
    if b.unsigned() < a.unsigned() {
        lemma_magnitude_increases(b.unsigned(), a.unsigned(), unit);
    }
}

proof fn lemma_zero_magnitude()
    ensures
        magnitude(0, DOUBLE_UNIT as int) == 0,
{
}

} // verus!
