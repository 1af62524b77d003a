//! Fixed-point base-10 logarithm for the logarithmic axis.
//!
//! A positive fixed-point value `v` (see [`crate::fixed::FX_SCALE`]) is split
//! into a decimal exponent and a mantissa in `[1, 10)`; the fractional part
//! of the logarithm is then extracted bit by bit by repeated squaring.  The
//! result is `log10` of the data value, scaled by [`OUT_ONE`] and truncated.

use vstd::prelude::*;
use vstd::arithmetic::div_mod::{
    lemma_div_is_ordered, lemma_div_multiples_vanish, lemma_div_pos_is_pos,
    lemma_fundamental_div_mod, lemma_multiply_divide_lt,
};
use vstd::arithmetic::mul::{lemma_mul_inequality, lemma_mul_strict_inequality};
use vstd::arithmetic::power2::{lemma2_to64, pow2};
use crate::fixed::FX_MAX;

verus! {

/// Mantissa scale: the normalized mantissa lives in `[FRAC_ONE, 10 * FRAC_ONE)`.
pub const FRAC_ONE: u64 = 1_048_576;

/// Output scale of the logarithm: one decade is `OUT_ONE` ticks.
pub const OUT_ONE: i64 = 65_536;

/// How many fractional bits of the logarithm are extracted.
pub const FRAC_BITS: u64 = 16;

pub open spec fn pow10(n: nat) -> int
    decreases n,
{
    if n == 0 {
        1
    } else {
        10 * pow10((n - 1) as nat)
    }
}

/// The decimal exponent: the unique `e` with `pow10(e) <= v < pow10(e + 1)`.
pub open spec fn exp10_floor(v: int) -> nat
    decreases v,
{
    if v < 10 {
        0
    } else {
        1 + exp10_floor(v / 10)
    }
}

/// The mantissa of `v`, scaled so that `[1, 10)` becomes `[FRAC_ONE, 10 * FRAC_ONE)`.
pub open spec fn norm_mant(v: int) -> int {
    (v * FRAC_ONE) / pow10(exp10_floor(v))
}

/// One squaring step on a scaled mantissa.
pub open spec fn sq_step(m: int) -> int {
    (m * m) / (FRAC_ONE as int)
}

/// The first `k` binary fraction digits of `log10(m / FRAC_ONE)`, read as an
/// integer in `[0, pow2(k))`: squaring doubles the logarithm, and crossing 10
/// contributes the next bit.
pub open spec fn frac_bits(m: int, k: nat) -> int
    decreases k,
{
    if k == 0 {
        0
    } else {
        let s = sq_step(m);
        if s >= 10 * FRAC_ONE {
            pow2((k - 1) as nat) + frac_bits(s / 10, (k - 1) as nat)
        } else {
            frac_bits(s, (k - 1) as nat)
        }
    }
}

/// `log10(v / FX_SCALE)` in fixed point, scaled by `OUT_ONE`, truncated.
/// The `- 6` converts the exponent of the raw `i64` into the exponent of the
/// data value it stands for (`FX_SCALE` is `10^6`).
pub open spec fn log10_fx_spec(v: int) -> int {
    (exp10_floor(v) - 6) * (OUT_ONE as int) + frac_bits(norm_mant(v), FRAC_BITS as nat)
}

pub proof fn lemma_pow10_pos(n: nat)
    ensures
        0 < pow10(n),
    decreases n,
{
    if n > 0 {
        lemma_pow10_pos((n - 1) as nat);
    }
}

pub proof fn lemma_pow10_increases(a: nat, b: nat)
    requires
        a <= b,
    ensures
        pow10(a) <= pow10(b),
    decreases b,
{
    if a < b {
        lemma_pow10_increases(a, (b - 1) as nat);
        lemma_pow10_pos((b - 1) as nat);
    }
}

/// Table entries of `pow10` that the bound proofs need.
pub proof fn lemma_pow10_values()
    ensures
        pow10(17) == FX_MAX as int,
        pow10(18) == 10 * FX_MAX as int,
        pow10(6) == 1_000_000,
{
    assert(pow10(0) == 1);
    assert(pow10(1) == 10);
    assert(pow10(2) == 100);
    assert(pow10(3) == 1000);
    assert(pow10(4) == 10000);
    assert(pow10(5) == 100000);
    assert(pow10(6) == 1000000);
    assert(pow10(7) == 10000000);
    assert(pow10(8) == 100000000);
    assert(pow10(9) == 1000000000);
    assert(pow10(10) == 10000000000);
    assert(pow10(11) == 100000000000);
    assert(pow10(12) == 1000000000000);
    assert(pow10(13) == 10000000000000);
    assert(pow10(14) == 100000000000000);
    assert(pow10(15) == 1000000000000000);
    assert(pow10(16) == 10000000000000000);
    assert(pow10(17) == 100000000000000000);
    assert(pow10(18) == 1000000000000000000);
}

/// The decimal exponent brackets its argument between adjacent powers of ten.
pub proof fn lemma_exp10_floor_bounds(v: int)
    requires
        1 <= v,
    ensures
        pow10(exp10_floor(v)) <= v < pow10(exp10_floor(v) + 1),
    decreases v,
{
    if v < 10 {
        assert(pow10(0) == 1);
        assert(pow10(1) == 10);
    } else {
        lemma_fundamental_div_mod(v, 10);
        lemma_exp10_floor_bounds(v / 10);
        let e = exp10_floor(v / 10);
        assert(v >= 10 * (v / 10));
        assert(10 * (v / 10) >= 10 * pow10(e)) by {
            lemma_mul_inequality(pow10(e), v / 10, 10);
        }
        assert(v < 10 * (v / 10) + 10);
        assert(10 * (v / 10) + 10 <= 10 * pow10(e + 1)) by {
            lemma_mul_inequality(v / 10 + 1, pow10(e + 1), 10);
        }
    }
}

/// The bracketing determines the exponent uniquely.
pub proof fn lemma_exp10_floor_of(v: int, k: nat)
    requires
        1 <= v,
        pow10(k) <= v < pow10(k + 1),
    ensures
        exp10_floor(v) == k,
{
    let e = exp10_floor(v);
    lemma_exp10_floor_bounds(v);
    if e < k {
        lemma_pow10_increases(e + 1, k);
        assert(false);
    }
    if e > k {
        lemma_pow10_increases(k + 1, e);
        assert(false);
    }
}

pub proof fn lemma_exp10_floor_mono(v1: int, v2: int)
    requires
        1 <= v1 <= v2,
    ensures
        exp10_floor(v1) <= exp10_floor(v2),
{
    let e1 = exp10_floor(v1);
    let e2 = exp10_floor(v2);
    lemma_exp10_floor_bounds(v1);
    lemma_exp10_floor_bounds(v2);
    if e1 > e2 {
        lemma_pow10_increases(e2 + 1, e1);
        assert(false);
    }
}

/// Values in the fixed-point band have exponents up to 17.
pub proof fn lemma_exp10_floor_le_17(v: int)
    requires
        1 <= v <= FX_MAX as int,
    ensures
        exp10_floor(v) <= 17,
{
    let e = exp10_floor(v);
    lemma_exp10_floor_bounds(v);
    lemma_pow10_values();
    if e > 17 {
        lemma_pow10_increases(18, e);
        assert(false);
    }
}

/// The scaled mantissa lands in `[FRAC_ONE, 10 * FRAC_ONE)`.
pub proof fn lemma_norm_mant_range(v: int)
    requires
        1 <= v,
    ensures
        FRAC_ONE as int <= norm_mant(v) < 10 * FRAC_ONE,
{
    let e = exp10_floor(v);
    let p = pow10(e);
    let f = FRAC_ONE as int;
    lemma_exp10_floor_bounds(v);
    lemma_pow10_pos(e);
    assert(p * f <= v * f) by {
        lemma_mul_inequality(p, v, f);
    }
    assert((p * f) / p == f) by {
        lemma_div_multiples_vanish(f, p);
        assert(f * p == p * f);
    }
    lemma_div_is_ordered(p * f, v * f, p);
    assert(v * f < p * (10 * f)) by {
        lemma_mul_strict_inequality(v, 10 * p, f);
        assert((10 * p) * f == p * (10 * f)) by (nonlinear_arith);
    }
    lemma_multiply_divide_lt(v * f, p, 10 * f);
}

/// `frac_bits` always lands in `[0, pow2(k))`, whatever the mantissa.
pub proof fn lemma_frac_bits_bounds(m: int, k: nat)
    ensures
        0 <= frac_bits(m, k) < pow2(k),
    decreases k,
{
    if k == 0 {
        assert(pow2(0) == 1) by {
            lemma2_to64();
        }
    } else {
        let s = sq_step(m);
        lemma_frac_bits_bounds(s / 10, (k - 1) as nat);
        lemma_frac_bits_bounds(s, (k - 1) as nat);
        assert(pow2(k) == 2 * pow2((k - 1) as nat)) by {
            vstd::arithmetic::power2::lemma_pow2_unfold(k);
        }
    }
}

pub proof fn lemma_sq_step_mono(m1: int, m2: int)
    requires
        0 <= m1 <= m2,
    ensures
        0 <= sq_step(m1) <= sq_step(m2),
{
    let f = FRAC_ONE as int;
    assert(0 <= m1 * m1 <= m2 * m2) by (nonlinear_arith)
        requires
            0 <= m1 <= m2,
    ;
    lemma_div_is_ordered(m1 * m1, m2 * m2, f);
    lemma_div_pos_is_pos(m1 * m1, f);
}

/// Bit extraction is monotone in the mantissa.
pub proof fn lemma_frac_bits_mono(m1: int, m2: int, k: nat)
    requires
        0 <= m1 <= m2,
    ensures
        frac_bits(m1, k) <= frac_bits(m2, k),
    decreases k,
{
    if k > 0 {
        let s1 = sq_step(m1);
        let s2 = sq_step(m2);
        lemma_sq_step_mono(m1, m2);
        let kk = (k - 1) as nat;
        if s1 >= 10 * FRAC_ONE {
            lemma_div_is_ordered(s1, s2, 10);
            lemma_frac_bits_mono(s1 / 10, s2 / 10, kk);
        } else if s2 >= 10 * FRAC_ONE {
            lemma_frac_bits_bounds(s1, kk);
            lemma_frac_bits_bounds(s2 / 10, kk);
        } else {
            lemma_frac_bits_mono(s1, s2, kk);
        }
    }
}

/// The fixed-point logarithm is monotone on the positive band.
pub proof fn lemma_log10_fx_mono(v1: int, v2: int)
    requires
        1 <= v1 <= v2,
    ensures
        log10_fx_spec(v1) <= log10_fx_spec(v2),
{
    let e1 = exp10_floor(v1);
    let e2 = exp10_floor(v2);
    let f1 = frac_bits(norm_mant(v1), FRAC_BITS as nat);
    let f2 = frac_bits(norm_mant(v2), FRAC_BITS as nat);
    lemma_exp10_floor_mono(v1, v2);
    lemma_frac_bits_bounds(norm_mant(v1), FRAC_BITS as nat);
    lemma_frac_bits_bounds(norm_mant(v2), FRAC_BITS as nat);
    assert(pow2(16) == 65536) by {
        lemma2_to64();
    }
    if e1 == e2 {
        let p = pow10(e1);
        lemma_pow10_pos(e1);
        assert(v1 * FRAC_ONE <= v2 * FRAC_ONE) by {
            lemma_mul_inequality(v1, v2, FRAC_ONE as int);
        }
        lemma_div_is_ordered(v1 * FRAC_ONE, v2 * FRAC_ONE, p);
        lemma_frac_bits_mono(norm_mant(v1), norm_mant(v2), FRAC_BITS as nat);
    } else {
        assert((e1 - 6) * (OUT_ONE as int) + (OUT_ONE as int) <= (e2 - 6) * (OUT_ONE as int)) by (nonlinear_arith)
            requires
                e1 + 1 <= e2,
        ;
    }
}

/// At an exact power of ten the logarithm is exact: every fraction bit is zero.
pub proof fn lemma_frac_bits_of_one(k: nat)
    ensures
        frac_bits(FRAC_ONE as int, k) == 0,
    decreases k,
{
    if k > 0 {
        let f = FRAC_ONE as int;
        assert(sq_step(f) == f) by {
            lemma_div_multiples_vanish(f, f);
        }
        lemma_frac_bits_of_one((k - 1) as nat);
    }
}

/// `log10` of the fixed-point form of `10^j` is exactly `j * OUT_ONE`.
pub proof fn lemma_log10_fx_pow10(k: nat)
    requires
        k <= 17,
    ensures
        log10_fx_spec(pow10(k)) == (k - 6) * (OUT_ONE as int),
{
    let p = pow10(k);
    lemma_pow10_pos(k);
    assert(p < pow10(k + 1)) by {
        lemma_pow10_pos(k);
    }
    lemma_exp10_floor_of(p, k);
    assert(norm_mant(p) == FRAC_ONE as int) by {
        lemma_div_multiples_vanish(FRAC_ONE as int, p);
        assert((FRAC_ONE as int) * p == p * FRAC_ONE);
    }
    lemma_frac_bits_of_one(FRAC_BITS as nat);
}

/// The output of the logarithm is small: well inside the interpolation bounds.
pub proof fn lemma_log10_fx_range(v: int)
    requires
        1 <= v <= FX_MAX as int,
    ensures
        -(6 * OUT_ONE as int) <= log10_fx_spec(v) < 12 * (OUT_ONE as int),
{
    let e = exp10_floor(v);
    lemma_exp10_floor_le_17(v);
    lemma_frac_bits_bounds(norm_mant(v), FRAC_BITS as nat);
    assert(pow2(16) == 65536) by {
        lemma2_to64();
    }
    assert((e - 6) * (OUT_ONE as int) <= 11 * (OUT_ONE as int)) by (nonlinear_arith)
        requires
            e <= 17,
    ;
    assert((e - 6) * (OUT_ONE as int) >= -6 * (OUT_ONE as int)) by (nonlinear_arith)
        requires
            e >= 0,
    ;
}

/// The power of ten `10^e` as a machine word, for tick generation.
pub fn pow10_u64(e: u64) -> (r: u64)
    requires
        e <= 17,
    ensures
        r as int == pow10(e as nat),
{
    let mut r: u64 = 1;
    let mut i: u64 = 0;
    proof {
        lemma_pow10_values();
    }
    while i < e
        invariant
            i <= e <= 17,
            r as int == pow10(i as nat),
            pow10(17) == FX_MAX as int,
        decreases e - i,
    {
        proof {
            lemma_pow10_increases(i as nat + 1, 17);
        }
        r = r * 10;
        i = i + 1;
    }
    r
}

fn pow2_u64(e: u64) -> (r: u64)
    requires
        e <= 16,
    ensures
        r as int == pow2(e as nat),
{
    proof {
        lemma2_to64();
    }
    let mut r: u64 = 1;
    let mut i: u64 = 0;
    while i < e
        invariant
            i <= e <= 16,
            r as int == pow2(i as nat),
            pow2(16) == 65536,
        decreases e - i,
    {
        proof {
            vstd::arithmetic::power2::lemma_pow2_strictly_increases(i as nat, 16);
            vstd::arithmetic::power2::lemma_pow2_unfold(i as nat + 1);
        }
        r = r * 2;
        i = i + 1;
    }
    r
}

fn frac_bits_exec(m: u64, k: u64) -> (r: u64)
    requires
        FRAC_ONE <= m < 10 * FRAC_ONE,
        k <= 16,
    ensures
        r as int == frac_bits(m as int, k as nat),
    decreases k,
{
    if k == 0 {
        0
    } else {
        proof {
            assert(m * m < 10 * FRAC_ONE * (10 * FRAC_ONE)) by (nonlinear_arith)
                requires
                    0 <= m < 10 * FRAC_ONE,
            ;
            assert((m as int * m as int) / (FRAC_ONE as int) >= FRAC_ONE as int) by {
                assert(m as int * m as int >= FRAC_ONE as int * FRAC_ONE as int) by (nonlinear_arith)
                    requires
                        m >= FRAC_ONE,
                ;
                lemma_div_multiples_vanish(FRAC_ONE as int, FRAC_ONE as int);
                lemma_div_is_ordered(
                    FRAC_ONE as int * FRAC_ONE as int,
                    m as int * m as int,
                    FRAC_ONE as int,
                );
            }
            assert((m as int * m as int) / (FRAC_ONE as int) < 100 * FRAC_ONE) by {
                assert((m as int) * (m as int) < (FRAC_ONE as int) * (100 * (FRAC_ONE as int))) by (nonlinear_arith)
                    requires
                        0 <= m < 10 * FRAC_ONE,
                ;
                lemma_multiply_divide_lt(m as int * m as int, FRAC_ONE as int, 100 * FRAC_ONE as int);
            }
        }
        let sq: u64 = (m * m) / FRAC_ONE;
        if sq >= 10 * FRAC_ONE {
            proof {
                lemma_div_is_ordered(10 * FRAC_ONE as int, sq as int, 10);
                lemma_div_multiples_vanish(FRAC_ONE as int, 10);
                assert((FRAC_ONE as int) * 10 == 10 * FRAC_ONE as int);
                assert((sq as int) < 10 * (10 * (FRAC_ONE as int)));
                lemma_multiply_divide_lt(sq as int, 10, 10 * FRAC_ONE as int);
            }
            let rest = frac_bits_exec(sq / 10, k - 1);
            let bit = pow2_u64(k - 1);
            proof {
                lemma_frac_bits_bounds((sq / 10) as int, (k - 1) as nat);
                lemma2_to64();
                let km1 = (k - 1) as nat;
                if km1 < 16 {
                    vstd::arithmetic::power2::lemma_pow2_strictly_increases(km1, 16);
                }
            }
            bit + rest
        } else {
            frac_bits_exec(sq, k - 1)
        }
    }
}

/// Fixed-point `log10`: monotone, exact at powers of ten (see the lemmas on
/// [`log10_fx_spec`]), and total on the positive fixed-point band.
pub fn log10_fx(v: i64) -> (r: i64)
    requires
        1 <= v <= FX_MAX,
    ensures
        r as int == log10_fx_spec(v as int),
{
    let mut t: u64 = v as u64;
    let mut e: u64 = 0;
    proof {
        lemma_pow10_values();
    }
    while t >= 10
        invariant
            1 <= t,
            e <= 17,
            exp10_floor(v as int) == e + exp10_floor(t as int),
            t as int * pow10(e as nat) <= v as int,
            1 <= v <= FX_MAX,
        decreases t,
    {
        proof {
            lemma_pow10_values();
            lemma_pow10_pos(e as nat);
            lemma_fundamental_div_mod(t as int, 10);
            assert((t as int / 10) * pow10(e as nat + 1) <= t as int * pow10(e as nat)) by (nonlinear_arith)
                requires
                    10 * (t as int / 10) <= t as int,
                    pow10(e as nat + 1) == 10 * pow10(e as nat),
                    pow10(e as nat) > 0,
            ;
            assert(10 * pow10(e as nat) <= t as int * pow10(e as nat)) by {
                lemma_mul_inequality(10, t as int, pow10(e as nat));
            }
            if e as nat + 1 > 17 {
                lemma_pow10_increases(18, e as nat + 1);
                assert(false);
            }
        }
        t = t / 10;
        e = e + 1;
    }
    proof {
        assert(exp10_floor(t as int) == 0);
        lemma_pow10_pos(e as nat);
        assert(pow10(e as nat) <= t as int * pow10(e as nat)) by (nonlinear_arith)
            requires
                1 <= t,
                pow10(e as nat) > 0,
        ;
        lemma_pow10_values();
        if e > 17 {
            lemma_pow10_increases(18, e as nat);
            assert(false);
        }
    }
    let p: u64 = pow10_u64(e);
    let mprod: u128 = (v as u128) * (FRAC_ONE as u128);
    let m128: u128 = mprod / (p as u128);
    proof {
        lemma_exp10_floor_bounds(v as int);
        lemma_norm_mant_range(v as int);
    }
    let m: u64 = m128 as u64;
    let f: u64 = frac_bits_exec(m, FRAC_BITS);
    proof {
        lemma_frac_bits_bounds(m as int, FRAC_BITS as nat);
        lemma2_to64();
    }
    let whole: i64 = (e as i64 - 6) * OUT_ONE;
    whole + (f as i64)
}

} // verus!
