//! The series renderer: a connected polyline through mapped points, and the
//! legend entry each drawn series registers.

use vstd::prelude::*;
use vstd::pervasive::unreached;
use crate::fixed::fx_ok;
use crate::domain::{AxisDomain, DomainError};
use crate::draw::{DrawCmd, PlotFrame, Rgb};
use crate::mapper::{check_value, map_err, map_px, map_value};

verus! {

/// One data point, in fixed-point data space.
#[derive(Clone, Copy, PartialEq, Eq, Structural, Debug)]
pub struct SamplePoint {
    pub x: i64,
    pub y: i64,
}

pub open spec fn pt_ok(p: SamplePoint) -> bool {
    fx_ok(p.x as int) && fx_ok(p.y as int)
}

pub open spec fn pts_ok(s: Seq<SamplePoint>) -> bool {
    forall|i: int| 0 <= i < s.len() ==> pt_ok(#[trigger] s[i])
}

/// Why a point cannot be mapped: its x under the shared horizontal domain
/// first, its y under the series' own vertical domain second.
pub open spec fn point_err(xd: AxisDomain, yd: AxisDomain, p: SamplePoint) -> Option<DomainError> {
    if map_err(xd, p.x as int) is Some {
        map_err(xd, p.x as int)
    } else {
        map_err(yd, p.y as int)
    }
}

/// The error of the first unmappable point, scanning in order; `None` when
/// every point maps.  A failing point aborts the whole frame: a partially
/// drawn chart is worse than a visible failure.
pub open spec fn series_err(xd: AxisDomain, yd: AxisDomain, pts: Seq<SamplePoint>) -> Option<
    DomainError,
>
    decreases pts.len(),
{
    if pts.len() == 0 {
        None
    } else if point_err(xd, yd, pts[0]) is Some {
        point_err(xd, yd, pts[0])
    } else {
        series_err(xd, yd, pts.drop_first())
    }
}

/// When no point fails, every point maps.
pub proof fn lemma_series_err_none(xd: AxisDomain, yd: AxisDomain, pts: Seq<SamplePoint>, i: int)
    requires
        series_err(xd, yd, pts) is None,
        0 <= i < pts.len(),
    ensures
        point_err(xd, yd, pts[i]) is None,
    decreases pts.len(),
{
    if i > 0 {
        lemma_series_err_none(xd, yd, pts.drop_first(), i - 1);
        assert(pts.drop_first()[i - 1] == pts[i]);
    }
}

/// The segment between two consecutive mapped points.  The vertical range
/// runs from the frame's bottom (the domain's `min`) up to its top.
pub open spec fn seg_cmd(
    xd: AxisDomain,
    yd: AxisDomain,
    f: PlotFrame,
    p: SamplePoint,
    q: SamplePoint,
    color: Rgb,
    width: u32,
) -> DrawCmd {
    DrawCmd::Line {
        x0: map_px(xd, f.left as int, f.right as int, p.x as int) as i64,
        y0: map_px(yd, f.bottom as int, f.top as int, p.y as int) as i64,
        x1: map_px(xd, f.left as int, f.right as int, q.x as int) as i64,
        y1: map_px(yd, f.bottom as int, f.top as int, q.y as int) as i64,
        color: color,
        width: width,
    }
}

/// The polyline of a series: one segment per consecutive pair of points.
pub open spec fn polyline_cmds(
    xd: AxisDomain,
    yd: AxisDomain,
    f: PlotFrame,
    pts: Seq<SamplePoint>,
    color: Rgb,
    width: u32,
) -> Seq<DrawCmd>
    decreases pts.len(),
{
    if pts.len() < 2 {
        Seq::empty()
    } else {
        polyline_cmds(xd, yd, f, pts.drop_last(), color, width).push(
            seg_cmd(xd, yd, f, pts[pts.len() - 2], pts[pts.len() - 1], color, width),
        )
    }
}

/// A series of fewer than two points draws no segment; otherwise there is
/// one segment per consecutive pair.
pub proof fn lemma_polyline_len(
    xd: AxisDomain,
    yd: AxisDomain,
    f: PlotFrame,
    pts: Seq<SamplePoint>,
    color: Rgb,
    width: u32,
)
    ensures
        pts.len() < 2 ==> polyline_cmds(xd, yd, f, pts, color, width).len() == 0,
        pts.len() >= 2 ==> polyline_cmds(xd, yd, f, pts, color, width).len() == pts.len() - 1,
    decreases pts.len(),
{
    if pts.len() >= 2 {
        lemma_polyline_len(xd, yd, f, pts.drop_last(), color, width);
    }
}

/// A legend entry: the label, swatch color and draw-order id of one series.
#[derive(Clone, Debug)]
pub struct LegendEntry {
    pub label: String,
    pub color: Rgb,
    pub series_id: u32,
}

/// Checks every point of a series in order and reports the first failure.
pub fn check_points(pts: &Vec<SamplePoint>, xd: &AxisDomain, yd: &AxisDomain) -> (r: Result<
    (),
    DomainError,
>)
    requires
        xd.bounded(),
        yd.bounded(),
    ensures
        r is Ok <==> series_err(*xd, *yd, pts@) is None,
        r is Err ==> Some(r->Err_0) == series_err(*xd, *yd, pts@),
{
    let mut i: usize = 0;
    proof {
        assert(pts@.skip(0) =~= pts@);
    }
    while i < pts.len()
        invariant
            i <= pts@.len(),
            xd.bounded(),
            yd.bounded(),
            series_err(*xd, *yd, pts@) == series_err(*xd, *yd, pts@.skip(i as int)),
        decreases pts@.len() - i,
    {
        let p = pts[i];
        proof {
            assert(pts@.skip(i as int)[0] == pts@[i as int]);
        }
        let xr = check_value(xd, p.x);
        match xr {
            Err(e) => {
                return Err(e);
            },
            Ok(_) => {},
        }
        let yr = check_value(yd, p.y);
        match yr {
            Err(e) => {
                return Err(e);
            },
            Ok(_) => {},
        }
        proof {
            assert(pts@.skip(i as int).drop_first() =~= pts@.skip(i as int + 1));
        }
        i = i + 1;
    }
    proof {
        assert(pts@.skip(pts@.len() as int) =~= Seq::<SamplePoint>::empty());
    }
    Ok(())
}

/// Draws one series: maps each point, connects consecutive pairs, and
/// registers exactly one legend entry, segments or not.  Fails with the
/// first point's [`DomainError`] if any point cannot be mapped.
pub fn draw_series(
    pts: &Vec<SamplePoint>,
    xd: &AxisDomain,
    yd: &AxisDomain,
    f: PlotFrame,
    color: Rgb,
    width: u32,
    label: &str,
    series_id: u32,
) -> (r: Result<(Vec<DrawCmd>, LegendEntry), DomainError>)
    requires
        xd.bounded(),
        yd.bounded(),
        pts_ok(pts@),
        f.bounded(),
    ensures
        r is Ok <==> series_err(*xd, *yd, pts@) is None,
        r is Err ==> Some(r->Err_0) == series_err(*xd, *yd, pts@),
        r is Ok ==> r->Ok_0.0@ == polyline_cmds(*xd, *yd, f, pts@, color, width),
        r is Ok ==> r->Ok_0.1.label@ == label@ && r->Ok_0.1.color == color
            && r->Ok_0.1.series_id == series_id,
        r is Ok && pts@.len() < 2 ==> r->Ok_0.0@.len() == 0,
        r is Ok && pts@.len() >= 2 ==> r->Ok_0.0@.len() == pts@.len() - 1,
{
    match check_points(pts, xd, yd) {
        Err(e) => {
            return Err(e);
        },
        Ok(_) => {},
    }
    let mut cmds: Vec<DrawCmd> = Vec::new();
    if pts.len() >= 2 {
        let mut i: usize = 1;
        proof {
            assert(pts@.take(1int).len() < 2);
        }
        while i < pts.len()
            invariant
                1 <= i <= pts@.len(),
                2 <= pts@.len(),
                xd.bounded(),
                yd.bounded(),
                pts_ok(pts@),
                f.bounded(),
                series_err(*xd, *yd, pts@) is None,
                cmds@ == polyline_cmds(*xd, *yd, f, pts@.take(i as int), color, width),
            decreases pts@.len() - i,
        {
            proof {
                lemma_series_err_none(*xd, *yd, pts@, i - 1);
                lemma_series_err_none(*xd, *yd, pts@, i as int);
            }
            let p = pts[i - 1];
            let q = pts[i];
            let x0 = match map_value(xd, f.left, f.right, p.x) {
                Ok(v) => v,
                Err(_) => unreached(),
            };
            let y0 = match map_value(yd, f.bottom, f.top, p.y) {
                Ok(v) => v,
                Err(_) => unreached(),
            };
            let x1 = match map_value(xd, f.left, f.right, q.x) {
                Ok(v) => v,
                Err(_) => unreached(),
            };
            let y1 = match map_value(yd, f.bottom, f.top, q.y) {
                Ok(v) => v,
                Err(_) => unreached(),
            };
            cmds.push(DrawCmd::Line { x0, y0, x1, y1, color, width });
            proof {
                let taken = pts@.take(i as int + 1);
                assert(taken.drop_last() =~= pts@.take(i as int));
                assert(taken[taken.len() - 2] == pts@[i - 1]);
                assert(taken[taken.len() - 1] == pts@[i as int]);
                assert(cmds@ =~= polyline_cmds(*xd, *yd, f, taken, color, width));
            }
            i = i + 1;
        }
        proof {
            assert(pts@.take(pts@.len() as int) =~= pts@);
        }
    }
    proof {
        lemma_polyline_len(*xd, *yd, f, pts@, color, width);
    }
    let entry = LegendEntry { label: label.to_owned(), color: color, series_id: series_id };
    Ok((cmds, entry))
}

} // verus!
