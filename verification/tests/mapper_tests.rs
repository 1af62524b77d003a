use dualchart::domain::{AxisDomain, DomainError, Scale};
use dualchart::logscale::log10_fx;
use dualchart::mapper::map_value;
use dualchart::ticks::{lin_ticks, log_ticks};

/// A data value in fixed-point ticks (millionths of a unit).
fn fx(v: f64) -> i64 {
    (v * 1e6).round() as i64
}

#[test]
fn linear_endpoints_map_to_range_ends() {
    let dom = AxisDomain { min: fx(0.0), max: fx(20.0), scale: Scale::Linear };
    assert_eq!(map_value(&dom, 100, 500, fx(0.0)), Ok(100));
    assert_eq!(map_value(&dom, 100, 500, fx(20.0)), Ok(500));
}

#[test]
fn linear_midpoint_is_exact() {
    let dom = AxisDomain { min: fx(0.0), max: fx(10.0), scale: Scale::Linear };
    assert_eq!(map_value(&dom, 0, 1000, fx(5.0)), Ok(500));
    assert_eq!(map_value(&dom, 0, 1000, fx(2.5)), Ok(250));
}

#[test]
fn linear_inverted_range_maps_down() {
    let dom = AxisDomain { min: fx(-1.0), max: fx(1.0), scale: Scale::Linear };
    assert_eq!(map_value(&dom, 400, 0, fx(-1.0)), Ok(400));
    assert_eq!(map_value(&dom, 400, 0, fx(1.0)), Ok(0));
    assert_eq!(map_value(&dom, 400, 0, fx(0.0)), Ok(200));
}

#[test]
fn log_endpoints_map_to_range_ends() {
    let dom = AxisDomain { min: fx(0.1), max: fx(1e10), scale: Scale::Logarithmic };
    assert_eq!(map_value(&dom, 0, 1100, fx(0.1)), Ok(0));
    assert_eq!(map_value(&dom, 0, 1100, fx(1e10)), Ok(1100));
}

#[test]
fn log_decades_are_equally_spaced() {
    let dom = AxisDomain { min: fx(1.0), max: fx(100.0), scale: Scale::Logarithmic };
    assert_eq!(map_value(&dom, 0, 200, fx(1.0)), Ok(0));
    assert_eq!(map_value(&dom, 0, 200, fx(10.0)), Ok(100));
    assert_eq!(map_value(&dom, 0, 200, fx(100.0)), Ok(200));
}

#[test]
fn log_mapping_is_monotone() {
    let dom = AxisDomain { min: fx(0.1), max: fx(1e10), scale: Scale::Logarithmic };
    let samples = [0.1, 0.5, 1.0, 3.0, 10.0, 99.0, 1e3, 1e6, 5e9, 1e10];
    let mut last = i64::MIN;
    for v in samples {
        let p = map_value(&dom, 0, 10_000, fx(v)).unwrap();
        assert!(p >= last, "log mapping not monotone at {v}");
        last = p;
    }
}

#[test]
fn nonpositive_fails_under_log_succeeds_under_linear() {
    let logdom = AxisDomain { min: fx(0.1), max: fx(1e10), scale: Scale::Logarithmic };
    let lindom = AxisDomain { min: fx(0.1), max: fx(1e10), scale: Scale::Linear };
    for v in [fx(-3.0), fx(0.0), -1] {
        assert_eq!(map_value(&logdom, 0, 100, v), Err(DomainError::NonPositive));
        assert!(map_value(&lindom, 0, 100, v).is_ok());
    }
}

#[test]
fn degenerate_domain_is_rejected_for_any_value() {
    let dom = AxisDomain { min: fx(5.0), max: fx(5.0), scale: Scale::Linear };
    for v in [fx(0.0), fx(5.0), fx(-7.0), fx(123.0)] {
        assert_eq!(map_value(&dom, 0, 100, v), Err(DomainError::Degenerate));
    }
    let rev = AxisDomain { min: fx(6.0), max: fx(5.0), scale: Scale::Linear };
    assert_eq!(map_value(&rev, 0, 100, fx(5.5)), Err(DomainError::Degenerate));
}

#[test]
fn log10_fx_is_exact_at_powers_of_ten() {
    assert_eq!(log10_fx(fx(1.0)), 0);
    assert_eq!(log10_fx(fx(10.0)), 65_536);
    assert_eq!(log10_fx(fx(100.0)), 2 * 65_536);
    assert_eq!(log10_fx(fx(0.1)), -65_536);
    assert_eq!(log10_fx(1), -6 * 65_536);
    assert_eq!(log10_fx(fx(1e10)), 10 * 65_536);
}

#[test]
fn log10_fx_covers_the_whole_fixed_point_band() {
    // the largest representable value, 1e11 data units, and the smallest
    assert_eq!(log10_fx(fx(1e11)), 11 * 65_536);
    assert_eq!(log10_fx(1), -6 * 65_536);
    let dom = AxisDomain { min: 1, max: fx(1e11), scale: Scale::Logarithmic };
    assert_eq!(map_value(&dom, 0, 1700, 1), Ok(0));
    assert_eq!(map_value(&dom, 0, 1700, fx(1e11)), Ok(1700));
    assert_eq!(map_value(&dom, 0, 1700, fx(1.0)), Ok(600));
}

#[test]
fn log10_fx_is_close_to_the_real_logarithm() {
    for v in [2.0, 3.7, 55.0, 0.004, 9.99e8] {
        let got = log10_fx(fx(v)) as f64 / 65_536.0;
        let want = v.log10();
        assert!((got - want).abs() < 1e-3, "log10({v}): got {got}, want {want}");
    }
}

#[test]
fn linear_ticks_span_the_domain() {
    let t = lin_ticks(fx(0.0), fx(10.0), 5);
    assert_eq!(t.len(), 6);
    assert_eq!(t[0], fx(0.0));
    assert_eq!(t[5], fx(10.0));
    assert_eq!(t[2], fx(4.0));
    for w in t.windows(2) {
        assert!(w[0] <= w[1]);
    }
}

#[test]
fn log_ticks_are_the_in_range_powers_of_ten() {
    let t = log_ticks(fx(0.1), fx(1e10));
    assert_eq!(t.len(), 12);
    assert_eq!(t[0], fx(0.1));
    assert_eq!(t[1], fx(1.0));
    assert_eq!(t[11], fx(1e10));
    for w in t.windows(2) {
        assert_eq!(w[1], w[0] * 10);
    }
    let none = log_ticks(fx(2.0), fx(9.0));
    assert!(none.is_empty());
}
