//! Fixed-point data values and the truncating interpolation quotient that
//! coordinate mapping is built on.

use vstd::prelude::*;
use vstd::arithmetic::div_mod::{lemma_div_is_ordered, lemma_div_multiples_vanish, lemma_div_pos_is_pos};
use vstd::arithmetic::mul::{lemma_mul_inequality, lemma_mul_nonnegative, lemma_mul_unary_negation};

verus! {

/// One data-space unit, counted in fixed-point ticks: a data value `v` is
/// stored as the `i64` nearest `v * FX_SCALE` (millionths of a unit).
pub const FX_SCALE: i64 = 1_000_000;

/// Largest magnitude a fixed-point data value may take (1e11 data units).
pub const FX_MAX: i64 = 100_000_000_000_000_000;

/// Largest magnitude a pixel coordinate may take; covers every `u32` surface.
pub const PX_MAX: i64 = 10_000_000_000;

/// A fixed-point data value within the representable band.
pub open spec fn fx_ok(v: int) -> bool {
    -(FX_MAX as int) <= v <= FX_MAX as int
}

/// A pixel coordinate within the representable band.
pub open spec fn px_ok(p: int) -> bool {
    -(PX_MAX as int) <= p <= PX_MAX as int
}

/// Round-toward-zero quotient `num * d / den`: the rounding that pixel
/// interpolation uses (`/` on `int` is Euclidean, hence the sign split).
pub open spec fn mul_div(num: int, d: int, den: int) -> int {
    if num * d >= 0 {
        (num * d) / den
    } else {
        -((-(num * d)) / den)
    }
}

/// Pixel coordinates out of the representable band saturate to its ends.
pub open spec fn clamp_px(p: int) -> int {
    if p < -(PX_MAX as int) {
        -(PX_MAX as int)
    } else if p > PX_MAX as int {
        PX_MAX as int
    } else {
        p
    }
}

/// A numerator of zero interpolates to zero offset.
pub proof fn lemma_mul_div_zero(d: int, den: int)
    requires
        0 < den,
    ensures
        mul_div(0, d, den) == 0,
{
    assert(0 * d == 0);
    assert(0int / den == 0) by {
        vstd::arithmetic::div_mod::lemma_div_of0(den);
    }
}

/// A numerator equal to the denominator interpolates to the whole extent
/// `d`, exactly, whichever sign `d` has.
pub proof fn lemma_mul_div_exact(d: int, den: int)
    requires
        0 < den,
    ensures
        mul_div(den, d, den) == d,
{
    if d >= 0 {
        lemma_mul_nonnegative(den, d);
        lemma_div_multiples_vanish(d, den);
        assert(den * d == d * den);
    } else {
        lemma_mul_unary_negation(den, d);
        assert(den * (-d) == -(den * d));
        assert(den * (-d) > 0) by {
            vstd::arithmetic::mul::lemma_mul_strictly_positive(den, -d);
        }
        lemma_div_multiples_vanish(-d, den);
        assert((-d) * den == den * (-d));
    }
}

/// For a non-negative extent `d`, interpolation is monotone in the numerator.
pub proof fn lemma_mul_div_mono(n1: int, n2: int, d: int, den: int)
    requires
        0 < den,
        0 <= d,
        n1 <= n2,
    ensures
        mul_div(n1, d, den) <= mul_div(n2, d, den),
{
    let p1 = n1 * d;
    let p2 = n2 * d;
    lemma_mul_inequality(n1, n2, d);
    if p1 >= 0 {
        lemma_div_is_ordered(p1, p2, den);
    } else if p2 >= 0 {
        lemma_div_pos_is_pos(-p1, den);
        lemma_div_pos_is_pos(p2, den);
    } else {
        lemma_div_is_ordered(-p2, -p1, den);
    }
}

/// `lo + num * d / den`, truncated toward zero and clamped to the pixel
/// band: the shared arithmetic core of both coordinate mappers.
pub fn scale_px(lo: i64, num: i64, d: i64, den: i64) -> (r: i64)
    requires
        0 < den,
        -400_000_000_000_000_000 <= num <= 400_000_000_000_000_000,
        -40_000_000_000 <= d <= 40_000_000_000,
        px_ok(lo as int),
    ensures
        r as int == clamp_px(lo as int + mul_div(num as int, d as int, den as int)),
{
    let nneg: bool = num < 0;
    let nmag: u128 = if num < 0 {
        (-num) as u128
    } else {
        num as u128
    };
    let dneg: bool = d < 0;
    let dmag: u128 = if d < 0 {
        (-d) as u128
    } else {
        d as u128
    };
    proof {
        assert(nmag * dmag <= 400_000_000_000_000_000 * 40_000_000_000) by (nonlinear_arith)
            requires
                nmag <= 400_000_000_000_000_000,
                dmag <= 40_000_000_000,
        ;
    }
    let mag: u128 = (nmag * dmag) / (den as u128);
    proof {
        let n = num as int;
        let dd = d as int;
        assert(nmag * dmag == if n * dd >= 0 { n * dd } else { -(n * dd) }) by (nonlinear_arith)
            requires
                nmag == (if n < 0 { -n } else { n }),
                dmag == (if dd < 0 { -dd } else { dd }),
        ;
        lemma_div_is_ordered(nmag as int * dmag as int, 400_000_000_000_000_000int * 40_000_000_000int, den as int);
        lemma_div_pos_is_pos(nmag as int * dmag as int, den as int);
    }
    let q: i128 = if nneg == dneg {
        mag as i128
    } else {
        -(mag as i128)
    };
    proof {
        let n = num as int;
        let dd = d as int;
        if nneg == dneg {
            assert(n * dd >= 0) by (nonlinear_arith)
                requires
                    (n < 0) == (dd < 0),
            ;
        } else {
            assert(n * dd <= 0) by (nonlinear_arith)
                requires
                    (n < 0) != (dd < 0),
            ;
            if n * dd == 0 {
                assert(0int / (den as int) == 0) by {
                    vstd::arithmetic::div_mod::lemma_div_of0(den as int);
                }
            }
        }
        assert(q == mul_div(n, dd, den as int));
    }
    let p: i128 = (lo as i128) + q;
    let lim: i128 = PX_MAX as i128;
    if p < -lim {
        -PX_MAX
    } else if p > lim {
        PX_MAX
    } else {
        p as i64
    }
}

} // verus!
