//! What the encodings of numbers denote.

use vstd::arithmetic::power2::*;
use vstd::prelude::*;

use crate::float::{is_widened, lemma_value_order, magnitude, Double, Single, DOUBLE_UNIT};

verus! {

/// The number zero has two encodings, which differ in the sign bit. The encoding after the
/// positive one is that of the smallest positive number.
pub proof fn law_zero_has_two_encodings(x: Double)
    ensures
        x.bits == 0 || x.bits == 0x8000_0000_0000_0000 ==> x.value() == 0,
        x.value() == 0 ==> x.bits == 0 || x.bits == 0x8000_0000_0000_0000,
        x.bits == 1 ==> x.value() == 1,
{
    let zero = Double { bits: 0 };
    lemma_value_order(x, zero);
    lemma_value_order(zero, x);
}

/// Setting the sign bit negates a number, and keeps what is not a number so.
pub proof fn law_sign_bit_negates(x: Double, y: Double)
    requires
        x.bits < 0x8000_0000_0000_0000,
        y.bits == x.bits + 0x8000_0000_0000_0000,
    ensures
        y.value() == -x.value(),
        x.value() >= 0,
        y.nan() == x.nan(),
        y.infinite() == x.infinite(),
        !x.negative(),
        y.negative(),
{
    let zero = Double { bits: 0 };
    lemma_value_order(x, zero);
}

/// What is not a number has all exponent bits set and a fraction; an infinity has them set
/// and no fraction.
pub proof fn law_exponent_tells_what_is_a_number(x: Double)
    ensures
        ({
            let exponent = x.bits as int % 0x8000_0000_0000_0000 / 0x10_0000_0000_0000;
            let fraction = x.bits as int % 0x10_0000_0000_0000;
            &&& x.nan() <==> exponent == 0x7ff && fraction != 0
            &&& x.infinite() <==> exponent == 0x7ff && fraction == 0
        }),
{
    let low = x.bits as int % 0x8000_0000_0000_0000;
    assert(low % 0x10_0000_0000_0000 == x.bits as int % 0x10_0000_0000_0000);
}

/// The next exponent doubles a normal number, and the next fraction adds one step, which the
/// exponent gives: the numbers are those of IEEE 754, in units of the smallest one.
pub proof fn law_exponent_doubles(x: Double, doubled: Double, next: Double)
    requires
        0x10_0000_0000_0000 <= x.bits < 0x7fe0_0000_0000_0000,
        doubled.bits == x.bits + 0x10_0000_0000_0000,
        next.bits == x.bits + 1,
        next.bits as int / 0x10_0000_0000_0000 == x.bits as int / 0x10_0000_0000_0000,
    ensures
        doubled.value() == 2 * x.value(),
        next.value() == x.value() + pow2((x.bits as int / 0x10_0000_0000_0000 - 1) as nat),
{
    let unit = DOUBLE_UNIT as int;
    let exponent = x.bits as int / unit;
    let fraction = x.bits as int % unit;
    assert(doubled.bits as int / unit == exponent + 1);
    assert(doubled.bits as int % unit == fraction);
    assert(next.bits as int % unit == fraction + 1);
    lemma_pow2_unfold(exponent as nat);
    let scale = pow2((exponent - 1) as nat) as int;
    assert((unit + fraction) * (2 * scale) == 2 * ((unit + fraction) * scale)) by (nonlinear_arith);
    assert((unit + (fraction + 1)) * scale == (unit + fraction) * scale + scale)
        by (nonlinear_arith);
}

/// The numbers without an exponent, and those with the lowest, are counted up from zero one
/// by one.
pub proof fn law_small_numbers_are_counted(x: Double)
    requires
        x.bits < 0x20_0000_0000_0000,
    ensures
        x.value() == x.bits,
{
    lemma2_to64();
    let unit = DOUBLE_UNIT as int;
    assert(pow2(0) == 1);
    if x.bits >= DOUBLE_UNIT {
        assert(x.bits as int / unit == 1);
        assert(x.bits as int % unit == x.bits - unit);
        assert((unit + (x.bits - unit)) * 1 == x.bits as int);
    }
}

/// The infinities lie beyond all finite numbers.
pub proof fn law_infinity_is_beyond_all_numbers(x: Double, infinity: Double)
    requires
        !x.nan(),
        !x.infinite(),
        infinity.infinite(),
    ensures
        infinity.negative() ==> infinity.value() < x.value(),
        !infinity.negative() ==> x.value() < infinity.value(),
{
    lemma_value_order(x, infinity);
    lemma_value_order(infinity, x);
}

/// The place of an encoding in the total order is its own, and smaller numbers come first.
/// The negative zero comes before the positive one.
pub proof fn law_total_order_follows_the_numbers(x: Double, y: Double)
    ensures
        x.rank() == y.rank() <==> x.bits == y.bits,
        x.value() < y.value() ==> x.rank() < y.rank(),
        x.negative() && !y.negative() ==> x.rank() < y.rank(),
{
    lemma_value_order(x, y);
    lemma_value_order(y, x);
}

/// A widened number is the same one: what is smaller stays smaller.
pub proof fn law_widening_keeps_the_order(a: Single, b: Single, wide_a: Double, wide_b: Double)
    requires
        is_widened(a, wide_a),
        is_widened(b, wide_b),
        !a.nan(),
        !b.nan(),
        !a.infinite(),
        !b.infinite(),
    ensures
        wide_a.value() < wide_b.value() <==> a.value() < b.value(),
        wide_a.value() == wide_b.value() <==> a.value() == b.value(),
        !wide_a.nan() && !wide_a.infinite(),
        wide_a.value() == 0 <==> a.value() == 0,
{
    let scale = pow2(925) as int;
    lemma_pow2_pos(925);
    let x = a.value();
    let y = b.value();
    assert(x < y ==> x * scale < y * scale) by (nonlinear_arith)
        requires
            scale > 0,
    ;
    assert(y < x ==> y * scale < x * scale) by (nonlinear_arith)
        requires
            scale > 0,
    ;
    assert(x == 0 ==> x * scale == 0) by (nonlinear_arith);
    assert(x != 0 ==> x * scale != 0) by (nonlinear_arith)
        requires
            scale > 0,
    ;
}

/// Measurements are numbers of IEEE 754 in single precision: the numbers without an
/// exponent, and those with the lowest, are counted up from zero one by one, the next
/// exponent doubles a number, and the sign bit negates it.
pub proof fn law_measurements_are_single_precision(x: Single, doubled: Single, negated: Single)
    requires
        x.bits < 0x8000_0000,
        negated.bits == x.bits + 0x8000_0000,
    ensures
        x.bits < 0x100_0000 ==> x.value() == x.bits,
        0x80_0000 <= x.bits < 0x7f00_0000 && doubled.bits == x.bits + 0x80_0000 ==> doubled.value()
            == 2 * x.value(),
        negated.value() == -x.value(),
        x.nan() <==> x.bits > 0x7f80_0000,
        x.infinite() <==> x.bits == 0x7f80_0000,
        negated.nan() == x.nan(),
        negated.infinite() == x.infinite(),
        !x.negative(),
        negated.negative(),
{
    lemma2_to64();
    let unit = 0x80_0000int;
    let exponent = x.bits as int / unit;
    let fraction = x.bits as int % unit;
    if x.bits < 0x100_0000 && x.bits >= 0x80_0000 {
        assert(exponent == 1);
        assert(magnitude(x.bits as int, unit) == (unit + fraction) * pow2(0));
        assert((unit + fraction) * 1 == x.bits as int);
    }
    if 0x80_0000 <= x.bits < 0x7f00_0000 && doubled.bits == x.bits + 0x80_0000 {
        assert(doubled.bits as int / unit == exponent + 1);
        assert(doubled.bits as int % unit == fraction);
        lemma_pow2_unfold(exponent as nat);
        let scale = pow2((exponent - 1) as nat) as int;
        assert((unit + fraction) * (2 * scale) == 2 * ((unit + fraction) * scale))
            by (nonlinear_arith);
    }
}

} // verus!
