//! Axis domains: the data-space interval an axis represents and its scale.

use vstd::prelude::*;
use crate::fixed::fx_ok;
use crate::logscale::{log10_fx, log10_fx_spec};

verus! {

/// How an axis spreads data values across its pixel range.
#[derive(Clone, Copy, PartialEq, Eq, Structural, Debug)]
pub enum Scale {
    Linear,
    Logarithmic,
}

/// The data-space interval an axis represents.  A valid domain has
/// `min < max`, and `min > 0` when the scale is logarithmic; the renderer
/// rejects anything else with a [`DomainError`] rather than mapping it.
#[derive(Clone, Copy, PartialEq, Eq, Structural, Debug)]
pub struct AxisDomain {
    pub min: i64,
    pub max: i64,
    pub scale: Scale,
}

/// Why a frame was not drawn: a value or domain invalid for its scale.
#[derive(Clone, Copy, PartialEq, Eq, Structural, Debug)]
pub enum DomainError {
    /// The domain is degenerate: its ends coincide (or are reversed), or the
    /// logarithmic transform cannot separate them.
    Degenerate,
    /// A value or a domain bound is not positive under a logarithmic scale.
    NonPositive,
}

impl AxisDomain {
    /// Both bounds lie in the fixed-point band.
    pub open spec fn bounded(self) -> bool {
        fx_ok(self.min as int) && fx_ok(self.max as int)
    }

    /// A well-formed domain: bounded, non-degenerate, positive under log.
    pub open spec fn wf(self) -> bool {
        self.bounded() && self.min < self.max && (self.scale is Logarithmic ==> self.min > 0)
    }
}

/// The transform an axis applies to data values before interpolating.
pub open spec fn transform(scale: Scale, v: int) -> int {
    match scale {
        Scale::Linear => v,
        Scale::Logarithmic => log10_fx_spec(v),
    }
}

/// Why a domain cannot map values at all, or `None` if it can.
pub open spec fn dom_err(dom: AxisDomain) -> Option<DomainError> {
    if dom.min >= dom.max {
        Some(DomainError::Degenerate)
    } else if dom.scale is Logarithmic && dom.min <= 0 {
        Some(DomainError::NonPositive)
    } else if dom.scale is Logarithmic && log10_fx_spec(dom.max as int) == log10_fx_spec(
        dom.min as int,
    ) {
        Some(DomainError::Degenerate)
    } else {
        None
    }
}

/// Checks that a domain can map values: exactly when [`dom_err`] is `None`.
pub fn check_domain(dom: &AxisDomain) -> (r: Result<(), DomainError>)
    requires
        dom.bounded(),
    ensures
        r is Ok <==> dom_err(*dom) is None,
        r is Err ==> Some(r->Err_0) == dom_err(*dom),
{
    if dom.min >= dom.max {
        return Err(DomainError::Degenerate);
    }
    match dom.scale {
        Scale::Linear => Ok(()),
        Scale::Logarithmic => {
            if dom.min <= 0 {
                Err(DomainError::NonPositive)
            } else {
                let lmin = log10_fx(dom.min);
                let lmax = log10_fx(dom.max);
                if lmax == lmin {
                    Err(DomainError::Degenerate)
                } else {
                    Ok(())
                }
            }
        },
    }
}

} // verus!
