//! Tick generation: evenly spaced positions for a linear axis, powers of ten
//! for a logarithmic one.

use vstd::prelude::*;
use vstd::arithmetic::div_mod::{
    lemma_div_is_ordered, lemma_div_multiples_vanish, lemma_div_of0, lemma_div_pos_is_pos,
};
use vstd::arithmetic::mul::lemma_mul_inequality;
use crate::fixed::{fx_ok, FX_MAX};
use crate::logscale::{
    lemma_exp10_floor_le_17, lemma_pow10_increases, lemma_pow10_pos, lemma_pow10_values, pow10,
    pow10_u64,
};

verus! {

/// Position of the `i`-th of `count + 1` evenly spaced ticks across
/// `[min, max]`: `min + i * (max - min) / count`, truncated.
pub open spec fn lin_tick_at(min: int, max: int, count: int, i: int) -> int {
    min + (i * (max - min)) / count
}

/// The first `n` evenly spaced tick positions (`n` runs up to `count + 1`).
pub open spec fn lin_ticks_seq(min: int, max: int, count: int, n: nat) -> Seq<i64>
    decreases n,
{
    if n == 0 {
        Seq::empty()
    } else {
        lin_ticks_seq(min, max, count, (n - 1) as nat).push(
            lin_tick_at(min, max, count, n - 1) as i64,
        )
    }
}

/// Evenly spaced ticks hit both ends exactly, stay inside the domain, and
/// are monotone in the index.
pub proof fn lemma_lin_tick_props(min: int, max: int, count: int, i: int, j: int)
    requires
        min < max,
        0 < count,
        0 <= i <= j <= count,
    ensures
        lin_tick_at(min, max, count, 0) == min,
        lin_tick_at(min, max, count, count) == max,
        min <= lin_tick_at(min, max, count, i) <= max,
        lin_tick_at(min, max, count, i) <= lin_tick_at(min, max, count, j),
{
    let d = max - min;
    assert(0 * d == 0);
    lemma_div_of0(count);
    assert((count * d) / count == d) by {
        lemma_div_multiples_vanish(d, count);
        assert(d * count == count * d);
    }
    lemma_mul_inequality(i, j, d);
    lemma_mul_inequality(0, i, d);
    lemma_mul_inequality(j, count, d);
    lemma_div_is_ordered(i * d, j * d, count);
    lemma_div_is_ordered(0 * d, i * d, count);
    lemma_div_is_ordered(j * d, count * d, count);
    lemma_div_is_ordered(i * d, count * d, count);
}

/// Each element of the tick sequence is the tick at its index.
pub proof fn lemma_lin_ticks_seq_index(min: int, max: int, count: int, n: nat, i: int)
    requires
        min < max,
        0 < count,
        0 <= i < n,
        n <= count + 1,
        fx_ok(min),
        fx_ok(max),
    ensures
        lin_ticks_seq(min, max, count, n).len() == n,
        lin_ticks_seq(min, max, count, n)[i] as int == lin_tick_at(min, max, count, i),
    decreases n,
{
    lemma_lin_tick_props(min, max, count, n - 1, n - 1);
    if i < n - 1 {
        lemma_lin_ticks_seq_index(min, max, count, (n - 1) as nat, i);
    } else {
        lemma_lin_ticks_len(min, max, count, (n - 1) as nat);
    }
}

pub proof fn lemma_lin_ticks_len(min: int, max: int, count: int, n: nat)
    ensures
        lin_ticks_seq(min, max, count, n).len() == n,
    decreases n,
{
    if n > 0 {
        lemma_lin_ticks_len(min, max, count, (n - 1) as nat);
    }
}

/// The `count + 1` evenly spaced ticks across `[min, max]`.
pub fn lin_ticks(min: i64, max: i64, count: u32) -> (r: Vec<i64>)
    requires
        fx_ok(min as int),
        fx_ok(max as int),
        min < max,
        0 < count <= 1000,
    ensures
        r@ == lin_ticks_seq(min as int, max as int, count as int, (count + 1) as nat),
{
    let mut r: Vec<i64> = Vec::new();
    let mut i: u32 = 0;
    let d: u64 = (max - min) as u64;
    while i <= count
        invariant
            i <= count + 1,
            0 < count <= 1000,
            min < max,
            fx_ok(min as int),
            fx_ok(max as int),
            d == max - min,
            r@ == lin_ticks_seq(min as int, max as int, count as int, i as nat),
        decreases count + 1 - i,
    {
        proof {
            lemma_lin_tick_props(min as int, max as int, count as int, i as int, i as int);
            lemma_mul_inequality(i as int, count as int, d as int);
            lemma_div_is_ordered(i as int * d as int, count as int * d as int, count as int);
            lemma_div_multiples_vanish(d as int, count as int);
            assert(d as int * count as int == count as int * d as int);
            lemma_div_pos_is_pos(i as int * d as int, count as int);
            assert(i as int * d as int <= 1001 * 400_000_000_000_000_000int) by (nonlinear_arith)
                requires
                    0 <= i as int <= 1001,
                    0 <= d as int <= 400_000_000_000_000_000int,
            ;
        }
        let off: u64 = ((i as u64 as u128 * d as u128) / (count as u128)) as u64;
        let t: i64 = min + off as i64;
        r.push(t);
        proof {
            let sq = lin_ticks_seq(min as int, max as int, count as int, (i + 1) as nat);
            assert(r@ =~= sq);
        }
        i = i + 1;
    }
    r
}

/// The first `n` decades whose powers of ten fall inside `[min, max]`, in
/// increasing order.
pub open spec fn log_ticks_seq(min: int, max: int, n: nat) -> Seq<i64>
    decreases n,
{
    if n == 0 {
        Seq::empty()
    } else {
        let rest = log_ticks_seq(min, max, (n - 1) as nat);
        let p = pow10((n - 1) as nat);
        if min <= p <= max {
            rest.push(p as i64)
        } else {
            rest
        }
    }
}

/// Logarithmic ticks are powers of ten inside the domain, strictly
/// increasing, and complete: every in-range power of ten appears.
pub proof fn lemma_log_ticks_props(min: int, max: int, n: nat)
    requires
        1 <= min,
        max <= FX_MAX as int,
        n <= 18,
    ensures
        forall|i: int|
            0 <= i < log_ticks_seq(min, max, n).len() ==> min <= #[trigger] log_ticks_seq(
                min,
                max,
                n,
            )[i] <= max,
        forall|i: int|
            0 <= i < log_ticks_seq(min, max, n).len() ==> ((#[trigger] log_ticks_seq(
                min,
                max,
                n,
            )[i]) as int) < pow10(n),
        forall|i: int|
            0 <= i < log_ticks_seq(min, max, n).len() ==> exists|k: nat|
                k < n && (#[trigger] log_ticks_seq(min, max, n)[i]) as int == pow10(k),
        forall|i: int, j: int|
            0 <= i < j < log_ticks_seq(min, max, n).len() ==> #[trigger] log_ticks_seq(min, max, n)[i]
                < #[trigger] log_ticks_seq(min, max, n)[j],
        forall|k: nat|
            k < n && min <= #[trigger] pow10(k) <= max ==> log_ticks_seq(min, max, n).contains(
                pow10(k) as i64,
            ),
    decreases n,
{
    if n > 0 {
        let m = (n - 1) as nat;
        lemma_log_ticks_props(min, max, m);
        let rest = log_ticks_seq(min, max, m);
        let s = log_ticks_seq(min, max, n);
        let p = pow10(m);
        lemma_pow10_pos(m);
        lemma_pow10_values();
        assert(p < pow10(n));
        assert forall|i: int| 0 <= i < rest.len() implies ((#[trigger] rest[i]) as int) < pow10(n) by {
            lemma_pow10_increases(m, n);
        }
        if min <= p <= max {
            assert(s == rest.push(p as i64));
            assert(p <= FX_MAX as int) by {
                lemma_pow10_values();
                if m > 17 {
                    lemma_pow10_increases(18, m);
                }
            }
            assert(forall|i: int| 0 <= i < rest.len() ==> #[trigger] rest[i] == s[i]);
            assert(s[s.len() - 1] == p as i64);
            assert forall|k: nat| k < n && min <= #[trigger] pow10(k) <= max implies s.contains(
                pow10(k) as i64,
            ) by {
                if k < m {
                    assert(rest.contains(pow10(k) as i64));
                    let wi = choose|wi: int| 0 <= wi < rest.len() && rest[wi] == pow10(k) as i64;
                    assert(s[wi] == pow10(k) as i64);
                } else {
                    assert(s[s.len() - 1] == pow10(k) as i64);
                }
            }
        } else {
            assert(s == rest);
            assert forall|k: nat| k < n && min <= #[trigger] pow10(k) <= max implies s.contains(
                pow10(k) as i64,
            ) by {
                assert(k != m);
            }
        }
    }
}

/// The powers of ten inside `[min, max]`, in increasing order: the tick
/// positions of a logarithmic axis.
pub fn log_ticks(min: i64, max: i64) -> (r: Vec<i64>)
    requires
        1 <= min,
        max <= FX_MAX,
    ensures
        r@ == log_ticks_seq(min as int, max as int, 18),
{
    let mut r: Vec<i64> = Vec::new();
    let mut k: u64 = 0;
    proof {
        lemma_pow10_values();
    }
    while k < 18
        invariant
            k <= 18,
            1 <= min,
            max <= FX_MAX,
            r@ == log_ticks_seq(min as int, max as int, k as nat),
        decreases 18 - k,
    {
        proof {
            lemma_pow10_values();
            if k as nat > 17 {
                lemma_pow10_increases(18, k as nat);
            }
            lemma_pow10_increases(k as nat, 17);
            lemma_pow10_pos(k as nat);
        }
        let p: u64 = pow10_u64(k);
        let pi: i64 = p as i64;
        if min <= pi && pi <= max {
            r.push(pi);
        }
        proof {
            let sq = log_ticks_seq(min as int, max as int, (k + 1) as nat);
            assert(r@ =~= sq);
        }
        k = k + 1;
    }
    r
}

} // verus!
