//! The coordinate mapper: data-space values to pixel positions.

use vstd::prelude::*;
use crate::fixed::{
    clamp_px, fx_ok, lemma_mul_div_exact, lemma_mul_div_mono, lemma_mul_div_zero, mul_div, px_ok,
    scale_px,
};
use crate::domain::{dom_err, transform, AxisDomain, DomainError, Scale};
use crate::logscale::{lemma_log10_fx_mono, lemma_log10_fx_range, log10_fx};

verus! {

/// Why mapping `v` under `dom` fails, or `None` if it succeeds: the domain
/// itself must be usable, and a logarithmic scale rejects `v <= 0`.
pub open spec fn map_err(dom: AxisDomain, v: int) -> Option<DomainError> {
    if dom_err(dom) is Some {
        dom_err(dom)
    } else if dom.scale is Logarithmic && v <= 0 {
        Some(DomainError::NonPositive)
    } else {
        None
    }
}

/// The pixel a value maps to: the transformed value, interpolated between
/// the transformed domain ends over `[lo, hi]`, truncated and clamped.
pub open spec fn map_px(dom: AxisDomain, lo: int, hi: int, v: int) -> int {
    let t = transform(dom.scale, v);
    let tmin = transform(dom.scale, dom.min as int);
    let tmax = transform(dom.scale, dom.max as int);
    clamp_px(lo + mul_div(t - tmin, hi - lo, tmax - tmin))
}

/// The transformed extent of a usable domain is positive.
pub proof fn lemma_transform_extent_pos(dom: AxisDomain)
    requires
        dom.bounded(),
        dom_err(dom) is None,
    ensures
        transform(dom.scale, dom.max as int) > transform(dom.scale, dom.min as int),
{
    if dom.scale is Logarithmic {
        lemma_log10_fx_mono(dom.min as int, dom.max as int);
    }
}

/// Maps a data value to a pixel position in the range `[lo, hi]` (which may
/// run either way: a vertical axis passes `lo` below `hi`).  Fails with a
/// [`DomainError`] exactly when [`map_err`] says so; on success the result
/// is exactly [`map_px`].
pub fn map_value(dom: &AxisDomain, lo: i64, hi: i64, v: i64) -> (r: Result<i64, DomainError>)
    requires
        dom.bounded(),
        fx_ok(v as int),
        px_ok(lo as int),
        px_ok(hi as int),
    ensures
        r is Ok <==> map_err(*dom, v as int) is None,
        r is Err ==> Some(r->Err_0) == map_err(*dom, v as int),
        r is Ok ==> r->Ok_0 as int == map_px(*dom, lo as int, hi as int, v as int),
{
    if dom.min >= dom.max {
        return Err(DomainError::Degenerate);
    }
    match dom.scale {
        Scale::Linear => {
            let num = v - dom.min;
            let den = dom.max - dom.min;
            Ok(scale_px(lo, num, hi - lo, den))
        },
        Scale::Logarithmic => {
            if dom.min <= 0 {
                return Err(DomainError::NonPositive);
            }
            let lmin = log10_fx(dom.min);
            let lmax = log10_fx(dom.max);
            if lmax == lmin {
                return Err(DomainError::Degenerate);
            }
            if v <= 0 {
                return Err(DomainError::NonPositive);
            }
            let lv = log10_fx(v);
            proof {
                lemma_log10_fx_range(dom.min as int);
                lemma_log10_fx_range(dom.max as int);
                lemma_log10_fx_range(v as int);
                lemma_log10_fx_mono(dom.min as int, dom.max as int);
            }
            Ok(scale_px(lo, lv - lmin, hi - lo, lmax - lmin))
        },
    }
}

/// Decides whether a value can be mapped under a domain, without computing
/// the pixel: exactly when [`map_err`] is `None`.
pub fn check_value(dom: &AxisDomain, v: i64) -> (r: Result<(), DomainError>)
    requires
        dom.bounded(),
    ensures
        r is Ok <==> map_err(*dom, v as int) is None,
        r is Err ==> Some(r->Err_0) == map_err(*dom, v as int),
{
    if dom.min >= dom.max {
        return Err(DomainError::Degenerate);
    }
    match dom.scale {
        Scale::Linear => Ok(()),
        Scale::Logarithmic => {
            if dom.min <= 0 {
                return Err(DomainError::NonPositive);
            }
            let lmin = log10_fx(dom.min);
            let lmax = log10_fx(dom.max);
            if lmax == lmin {
                return Err(DomainError::Degenerate);
            }
            if v <= 0 {
                return Err(DomainError::NonPositive);
            }
            Ok(())
        },
    }
}

/// Mapping a domain end yields the matching pixel-range end, exactly, under
/// either scale and either range orientation.
pub proof fn lemma_map_endpoints(dom: AxisDomain, lo: int, hi: int)
    requires
        dom.bounded(),
        dom_err(dom) is None,
        px_ok(lo),
        px_ok(hi),
    ensures
        map_px(dom, lo, hi, dom.min as int) == lo,
        map_px(dom, lo, hi, dom.max as int) == hi,
{
    let tmin = transform(dom.scale, dom.min as int);
    let tmax = transform(dom.scale, dom.max as int);
    lemma_transform_extent_pos(dom);
    lemma_mul_div_zero(hi - lo, tmax - tmin);
    lemma_mul_div_exact(hi - lo, tmax - tmin);
}

/// For an increasing pixel range the mapping is monotone in the value; in
/// particular the logarithmic mapping is monotone on positive values.
pub proof fn lemma_map_monotone(dom: AxisDomain, lo: int, hi: int, v1: int, v2: int)
    requires
        dom.bounded(),
        dom_err(dom) is None,
        map_err(dom, v1) is None,
        map_err(dom, v2) is None,
        lo <= hi,
        v1 <= v2,
    ensures
        map_px(dom, lo, hi, v1) <= map_px(dom, lo, hi, v2),
{
    let t1 = transform(dom.scale, v1);
    let t2 = transform(dom.scale, v2);
    let tmin = transform(dom.scale, dom.min as int);
    let tmax = transform(dom.scale, dom.max as int);
    lemma_transform_extent_pos(dom);
    if dom.scale is Logarithmic {
        lemma_log10_fx_mono(v1, v2);
    }
    lemma_mul_div_mono(t1 - tmin, t2 - tmin, hi - lo, tmax - tmin);
}

/// A value that is not positive is rejected under a logarithmic scale, and
/// accepted under a linear one whose domain is in order.
pub proof fn lemma_nonpositive_log_rejected(logdom: AxisDomain, lindom: AxisDomain, v: int)
    requires
        logdom.wf(),
        logdom.scale is Logarithmic,
        lindom.min < lindom.max,
        lindom.scale is Linear,
        v <= 0,
    ensures
        map_err(logdom, v) is Some,
        dom_err(logdom) is None ==> map_err(logdom, v) == Some(DomainError::NonPositive),
        map_err(lindom, v) is None,
{
}

} // verus!
