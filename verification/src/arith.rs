//! Integer arithmetic that saturates or rounds toward zero.

use vstd::prelude::*;

verus! {

/// `x` can be represented.
pub open spec fn fits(x: int) -> bool {
    i128::MIN <= x <= i128::MAX
}

/// `x`, or the nearest number that can be represented.
pub open spec fn saturated(x: int) -> int {
    if x > i128::MAX {
        i128::MAX as int
    } else if x < i128::MIN {
        i128::MIN as int
    } else {
        x
    }
}

/// The quotient of `a` by `b`, rounded toward zero.
pub open spec fn div_toward_zero(a: int, b: int) -> int {
    if a == 0 {
        0
    } else if a > 0 && b > 0 {
        a / b
    } else if a < 0 && b < 0 {
        (a * -1) / (b * -1)
    } else if a < 0 {
        ((a * -1) / b) * -1
    } else {
        (a / (b * -1)) * -1
    }
}

/// The sum of two numbers, or the nearest number that can be represented.
pub fn saturating_add(a: i128, b: i128) -> (r: i128)
    ensures
        r == saturated(a + b),
{
    match a.checked_add(b) {
        Some(sum) => sum,
        None => if a > 0 {
            i128::MAX
        } else {
            i128::MIN
        },
    }
}

/// The product of two numbers, or the nearest number that can be
/// represented.
pub fn saturating_mul(a: i128, b: i128) -> (r: i128)
    ensures
        r == saturated(a * b),
{
    match a.checked_mul(b) {
        Some(product) => product,
        None => {
            if (a > 0) == (b > 0) {
                assert(a * b > 0) by (nonlinear_arith)
                    requires
                        (a > 0) == (b > 0),
                        a != 0,
                        b != 0,
                ;
                i128::MAX
            } else {
                assert(a * b < 0) by (nonlinear_arith)
                    requires
                        (a > 0) != (b > 0),
                        a != 0,
                        b != 0,
                ;
                i128::MIN
            }
        },
    }
}

/// A quotient rounded toward zero is no larger in magnitude than the
/// dividend when the divisor is positive.
pub proof fn lemma_quotient_fits(a: int, b: int)
    requires
        fits(a),
        b > 0,
    ensures
        fits(div_toward_zero(a, b)),
{
    if a > 0 {
        assert(0 <= a / b <= a) by (nonlinear_arith)
            requires
                a > 0,
                b > 0,
        ;
    } else if a < 0 {
        assert(0 <= (a * -1) / b <= a * -1) by (nonlinear_arith)
            requires
                a < 0,
                b > 0,
        ;
    }
}

/// The product of two numbers that are not negative is not negative.
pub proof fn lemma_product_sign(a: int, b: int)
    requires
        a >= 0,
        b >= 0,
    ensures
        a * b >= 0,
        saturated(a * b) >= 0,
{
    assert(a * b >= 0) by (nonlinear_arith)
        requires
            a >= 0,
            b >= 0,
    ;
}

/// The quotient of `a` by a positive `b`, rounded toward zero.
pub fn div_by_positive(a: i128, b: i128) -> (r: i128)
    requires
        b > 0,
    ensures
        r == div_toward_zero(a as int, b as int),
{
    proof {
        lemma_quotient_fits(a as int, b as int);
    }
    match a.checked_div(b) {
        Some(quotient) => quotient,
        // Only a division by zero or of the lowest number by -1 fails.
        None => 0,
    }
}

} // verus!
