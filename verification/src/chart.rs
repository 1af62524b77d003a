//! The chart orchestrator: background, caption, axis meshes, the two series
//! and the legend, as one command list per frame.

use vstd::prelude::*;
use crate::domain::{check_domain, dom_err, AxisDomain, DomainError, Scale};
use crate::draw::{DrawCmd, PlotFrame, Rgb, TextId};
use crate::legend::{compose_legend, legend_cmds};
use crate::mapper::{map_err, map_px, map_value};
use crate::series::{
    draw_series, polyline_cmds, pts_ok, series_err, LegendEntry, SamplePoint,
};
use crate::ticks::{
    lemma_lin_tick_props, lemma_lin_ticks_len, lemma_lin_ticks_seq_index, lemma_log_ticks_props,
    lin_ticks, lin_ticks_seq, log_ticks, log_ticks_seq,
};

verus! {

/// One series with its style: the points, the legend label, and the color
/// and stroke width of its polyline.
pub struct SeriesData {
    pub points: Vec<SamplePoint>,
    pub label: String,
    pub color: Rgb,
    pub stroke_width: u32,
}

impl SeriesData {
    pub open spec fn wf(self) -> bool {
        pts_ok(self.points@)
    }
}

/// Per-frame chart configuration.  Caption and axis descriptions are carried
/// for the host to resolve against the `Text` commands; domains and layout
/// drive the geometry.
pub struct ChartConfig {
    pub caption: String,
    pub primary_desc: String,
    pub secondary_desc: String,
    pub caption_size: u32,
    pub margin: u32,
    pub x_label_area: u32,
    pub y_label_area: u32,
    pub right_y_label_area: u32,
    pub x_mesh: bool,
    pub y_mesh: bool,
    pub secondary_y_mesh: bool,
    pub x_domain: AxisDomain,
    pub primary_domain: AxisDomain,
    pub secondary_domain: AxisDomain,
    pub background: Rgb,
    pub axis_color: Rgb,
    pub legend_background: Rgb,
}

impl ChartConfig {
    /// Layout sizes small enough that no pixel coordinate can leave the
    /// band, and domains inside the fixed-point band.
    pub open spec fn wf(self) -> bool {
        self.caption_size <= 10000 && self.margin <= 10000 && self.x_label_area <= 10000
            && self.y_label_area <= 10000 && self.right_y_label_area <= 10000
            && self.x_domain.bounded() && self.primary_domain.bounded()
            && self.secondary_domain.bounded()
    }
}

/// The plot frame a configuration carves out of a `w` by `h` surface:
/// margins all round, label areas left, right and below, caption above.
pub open spec fn frame_of(w: u32, h: u32, cfg: ChartConfig) -> PlotFrame {
    PlotFrame {
        left: (cfg.margin + cfg.y_label_area) as i64,
        right: (w - cfg.margin - cfg.right_y_label_area) as i64,
        top: (cfg.margin + cfg.caption_size) as i64,
        bottom: (h - cfg.margin - cfg.x_label_area) as i64,
    }
}

/// Ticks at most 80 pixels apart horizontally, 40 vertically, between 1 and
/// 12 intervals: the label-area fitting heuristic.
pub open spec fn clamp_count(c: int) -> int {
    if c < 1 {
        1
    } else if c > 12 {
        12
    } else {
        c
    }
}

pub open spec fn x_tick_count(f: PlotFrame) -> int {
    clamp_count((f.right - f.left) / 80)
}

pub open spec fn y_tick_count(f: PlotFrame) -> int {
    clamp_count((f.bottom - f.top) / 40)
}

/// The tick positions of an axis: evenly spaced for a linear domain, the
/// powers of ten inside the domain for a logarithmic one.
pub open spec fn ticks_for(dom: AxisDomain, count: int) -> Seq<i64> {
    match dom.scale {
        Scale::Linear => lin_ticks_seq(dom.min as int, dom.max as int, count, (count + 1) as nat),
        Scale::Logarithmic => log_ticks_seq(dom.min as int, dom.max as int, 18),
    }
}

/// Every generated tick lies inside its domain.
pub proof fn lemma_ticks_for_in_range(dom: AxisDomain, count: int)
    requires
        dom.bounded(),
        dom_err(dom) is None,
        1 <= count <= 1000,
    ensures
        forall|i: int|
            0 <= i < ticks_for(dom, count).len() ==> dom.min <= #[trigger] ticks_for(dom, count)[i]
                <= dom.max,
{
    match dom.scale {
        Scale::Linear => {
            let s = ticks_for(dom, count);
            lemma_lin_ticks_len(dom.min as int, dom.max as int, count, (count + 1) as nat);
            assert forall|i: int| 0 <= i < s.len() implies dom.min <= #[trigger] s[i] <= dom.max by {
                lemma_lin_ticks_seq_index(
                    dom.min as int,
                    dom.max as int,
                    count,
                    (count + 1) as nat,
                    i,
                );
                lemma_lin_tick_props(dom.min as int, dom.max as int, count, i, i);
            }
        },
        Scale::Logarithmic => {
            lemma_log_ticks_props(dom.min as int, dom.max as int, 18);
        },
    }
}

/// Builds the tick positions of one axis.
pub fn make_ticks(dom: &AxisDomain, count: u32) -> (r: Vec<i64>)
    requires
        dom.bounded(),
        dom_err(*dom) is None,
        1 <= count <= 1000,
    ensures
        r@ == ticks_for(*dom, count as int),
{
    match dom.scale {
        Scale::Linear => lin_ticks(dom.min, dom.max, count),
        Scale::Logarithmic => log_ticks(dom.min, dom.max),
    }
}

/// The commands of one tick on the shared horizontal axis: an optional
/// full-height gridline, the tick mark below the frame, and the label.
pub open spec fn x_tick_cmds(
    t: i64,
    px: int,
    f: PlotFrame,
    mesh: bool,
    scientific: bool,
    color: Rgb,
) -> Seq<DrawCmd> {
    let base = seq![
        DrawCmd::Line {
            x0: px as i64,
            y0: f.bottom,
            x1: px as i64,
            y1: (f.bottom + 4) as i64,
            color: color,
            width: 1,
        },
        DrawCmd::TickLabel {
            x: px as i64,
            y: (f.bottom + 6) as i64,
            value: t,
            scientific: scientific,
            color: color,
        },
    ];
    if mesh {
        seq![
            DrawCmd::Line {
                x0: px as i64,
                y0: f.top,
                x1: px as i64,
                y1: f.bottom,
                color: color,
                width: 1,
            },
        ] + base
    } else {
        base
    }
}

pub open spec fn x_mesh_cmds(
    dom: AxisDomain,
    ticks: Seq<i64>,
    f: PlotFrame,
    mesh: bool,
    scientific: bool,
    color: Rgb,
) -> Seq<DrawCmd>
    decreases ticks.len(),
{
    if ticks.len() == 0 {
        Seq::empty()
    } else {
        x_mesh_cmds(dom, ticks.drop_last(), f, mesh, scientific, color) + x_tick_cmds(
            ticks.last(),
            map_px(dom, f.left as int, f.right as int, ticks.last() as int),
            f,
            mesh,
            scientific,
            color,
        )
    }
}

/// The commands of one tick on a vertical axis, on the frame's left or
/// right edge: optional full-width gridline, tick mark, label.
pub open spec fn y_tick_cmds(
    t: i64,
    py: int,
    f: PlotFrame,
    right_side: bool,
    mesh: bool,
    scientific: bool,
    color: Rgb,
) -> Seq<DrawCmd> {
    let mark = if right_side {
        DrawCmd::Line {
            x0: f.right,
            y0: py as i64,
            x1: (f.right + 4) as i64,
            y1: py as i64,
            color: color,
            width: 1,
        }
    } else {
        DrawCmd::Line {
            x0: (f.left - 4) as i64,
            y0: py as i64,
            x1: f.left,
            y1: py as i64,
            color: color,
            width: 1,
        }
    };
    let label = if right_side {
        DrawCmd::TickLabel {
            x: (f.right + 6) as i64,
            y: py as i64,
            value: t,
            scientific: scientific,
            color: color,
        }
    } else {
        DrawCmd::TickLabel {
            x: (f.left - 6) as i64,
            y: py as i64,
            value: t,
            scientific: scientific,
            color: color,
        }
    };
    let base = seq![mark, label];
    if mesh {
        seq![
            DrawCmd::Line {
                x0: f.left,
                y0: py as i64,
                x1: f.right,
                y1: py as i64,
                color: color,
                width: 1,
            },
        ] + base
    } else {
        base
    }
}

pub open spec fn y_mesh_cmds(
    dom: AxisDomain,
    ticks: Seq<i64>,
    f: PlotFrame,
    right_side: bool,
    mesh: bool,
    scientific: bool,
    color: Rgb,
) -> Seq<DrawCmd>
    decreases ticks.len(),
{
    if ticks.len() == 0 {
        Seq::empty()
    } else {
        y_mesh_cmds(dom, ticks.drop_last(), f, right_side, mesh, scientific, color) + y_tick_cmds(
            ticks.last(),
            map_px(dom, f.bottom as int, f.top as int, ticks.last() as int),
            f,
            right_side,
            mesh,
            scientific,
            color,
        )
    }
}

/// Draws the horizontal axis: one tick mark and label per tick, and a
/// vertical gridline per tick when the mesh is enabled.
pub fn x_mesh(
    dom: &AxisDomain,
    ticks: &Vec<i64>,
    f: PlotFrame,
    mesh: bool,
    scientific: bool,
    color: Rgb,
) -> (r: Vec<DrawCmd>)
    requires
        dom.bounded(),
        dom_err(*dom) is None,
        f.bounded(),
        forall|i: int| 0 <= i < ticks@.len() ==> dom.min <= #[trigger] ticks@[i] <= dom.max,
    ensures
        r@ == x_mesh_cmds(*dom, ticks@, f, mesh, scientific, color),
{
    let mut r: Vec<DrawCmd> = Vec::new();
    let mut i: usize = 0;
    proof {
        assert(ticks@.take(0int) =~= Seq::<i64>::empty());
    }
    while i < ticks.len()
        invariant
            i <= ticks@.len(),
            dom.bounded(),
            dom_err(*dom) is None,
            f.bounded(),
            forall|k: int| 0 <= k < ticks@.len() ==> dom.min <= #[trigger] ticks@[k] <= dom.max,
            r@ == x_mesh_cmds(*dom, ticks@.take(i as int), f, mesh, scientific, color),
        decreases ticks@.len() - i,
    {
        let t = ticks[i];
        proof {
            assert(dom.min <= ticks@[i as int] <= dom.max);
            assert(map_err(*dom, t as int) is None);
        }
        let px = match map_value(dom, f.left, f.right, t) {
            Ok(v) => v,
            Err(_) => vstd::pervasive::unreached(),
        };
        if mesh {
            r.push(DrawCmd::Line { x0: px, y0: f.top, x1: px, y1: f.bottom, color, width: 1 });
        }
        r.push(DrawCmd::Line { x0: px, y0: f.bottom, x1: px, y1: f.bottom + 4, color, width: 1 });
        r.push(DrawCmd::TickLabel { x: px, y: f.bottom + 6, value: t, scientific, color });
        proof {
            let taken = ticks@.take(i as int + 1);
            assert(taken.drop_last() =~= ticks@.take(i as int));
            assert(taken.last() == ticks@[i as int]);
            assert(r@ =~= x_mesh_cmds(*dom, taken, f, mesh, scientific, color));
        }
        i = i + 1;
    }
    proof {
        assert(ticks@.take(ticks@.len() as int) =~= ticks@);
    }
    r
}

/// Draws one vertical axis on the left or right edge of the frame.
pub fn y_mesh(
    dom: &AxisDomain,
    ticks: &Vec<i64>,
    f: PlotFrame,
    right_side: bool,
    mesh: bool,
    scientific: bool,
    color: Rgb,
) -> (r: Vec<DrawCmd>)
    requires
        dom.bounded(),
        dom_err(*dom) is None,
        f.bounded(),
        forall|i: int| 0 <= i < ticks@.len() ==> dom.min <= #[trigger] ticks@[i] <= dom.max,
    ensures
        r@ == y_mesh_cmds(*dom, ticks@, f, right_side, mesh, scientific, color),
{
    let mut r: Vec<DrawCmd> = Vec::new();
    let mut i: usize = 0;
    proof {
        assert(ticks@.take(0int) =~= Seq::<i64>::empty());
    }
    while i < ticks.len()
        invariant
            i <= ticks@.len(),
            dom.bounded(),
            dom_err(*dom) is None,
            f.bounded(),
            forall|k: int| 0 <= k < ticks@.len() ==> dom.min <= #[trigger] ticks@[k] <= dom.max,
            r@ == y_mesh_cmds(*dom, ticks@.take(i as int), f, right_side, mesh, scientific, color),
        decreases ticks@.len() - i,
    {
        let t = ticks[i];
        proof {
            assert(dom.min <= ticks@[i as int] <= dom.max);
            assert(map_err(*dom, t as int) is None);
        }
        let py = match map_value(dom, f.bottom, f.top, t) {
            Ok(v) => v,
            Err(_) => vstd::pervasive::unreached(),
        };
        if mesh {
            r.push(DrawCmd::Line { x0: f.left, y0: py, x1: f.right, y1: py, color, width: 1 });
        }
        if right_side {
            r.push(DrawCmd::Line { x0: f.right, y0: py, x1: f.right + 4, y1: py, color, width: 1 });
            r.push(DrawCmd::TickLabel { x: f.right + 6, y: py, value: t, scientific, color });
        } else {
            r.push(DrawCmd::Line { x0: f.left - 4, y0: py, x1: f.left, y1: py, color, width: 1 });
            r.push(DrawCmd::TickLabel { x: f.left - 6, y: py, value: t, scientific, color });
        }
        proof {
            let taken = ticks@.take(i as int + 1);
            assert(taken.drop_last() =~= ticks@.take(i as int));
            assert(taken.last() == ticks@[i as int]);
            assert(r@ =~= y_mesh_cmds(*dom, taken, f, right_side, mesh, scientific, color));
        }
        i = i + 1;
    }
    proof {
        assert(ticks@.take(ticks@.len() as int) =~= ticks@);
    }
    r
}

/// The background fill alone: what a frame too small for a plot area gets.
pub open spec fn bg_only(w: u32, h: u32, bg: Rgb) -> Seq<DrawCmd> {
    seq![DrawCmd::FillRect { x: 0, y: 0, w: w as i64, h: h as i64, color: bg }]
}

/// Background fill, caption and the two axis descriptions.
pub open spec fn header_cmds(w: u32, h: u32, cfg: ChartConfig, f: PlotFrame) -> Seq<DrawCmd> {
    seq![
        DrawCmd::FillRect { x: 0, y: 0, w: w as i64, h: h as i64, color: cfg.background },
        DrawCmd::Text {
            x: (w / 2) as i64,
            y: (cfg.margin + cfg.caption_size / 2) as i64,
            id: TextId::Caption,
            size: cfg.caption_size,
            color: cfg.axis_color,
        },
        DrawCmd::Text {
            x: (f.left - cfg.y_label_area + 4) as i64,
            y: ((f.top + f.bottom) / 2) as i64,
            id: TextId::PrimaryAxisDesc,
            size: 12,
            color: cfg.axis_color,
        },
        DrawCmd::Text {
            x: (f.right + cfg.right_y_label_area - 4) as i64,
            y: ((f.top + f.bottom) / 2) as i64,
            id: TextId::SecondaryAxisDesc,
            size: 12,
            color: cfg.axis_color,
        },
    ]
}

/// The first reason the frame fails: invalid domains in build order, then
/// the first unmappable point, primary series before secondary.
pub open spec fn frame_err(
    cfg: ChartConfig,
    p_pts: Seq<SamplePoint>,
    s_pts: Seq<SamplePoint>,
) -> Option<DomainError> {
    if dom_err(cfg.x_domain) is Some {
        dom_err(cfg.x_domain)
    } else if dom_err(cfg.primary_domain) is Some {
        dom_err(cfg.primary_domain)
    } else if dom_err(cfg.secondary_domain) is Some {
        dom_err(cfg.secondary_domain)
    } else if series_err(cfg.x_domain, cfg.primary_domain, p_pts) is Some {
        series_err(cfg.x_domain, cfg.primary_domain, p_pts)
    } else {
        series_err(cfg.x_domain, cfg.secondary_domain, s_pts)
    }
}

/// Every command of a successful full frame, in draw order: header, the
/// three axis meshes, the two polylines, the legend row.
pub open spec fn render_cmds(
    w: u32,
    h: u32,
    cfg: ChartConfig,
    p_pts: Seq<SamplePoint>,
    p_color: Rgb,
    p_width: u32,
    s_pts: Seq<SamplePoint>,
    s_color: Rgb,
    s_width: u32,
) -> Seq<DrawCmd> {
    let f = frame_of(w, h, cfg);
    header_cmds(w, h, cfg, f) + x_mesh_cmds(
        cfg.x_domain,
        ticks_for(cfg.x_domain, x_tick_count(f)),
        f,
        cfg.x_mesh,
        cfg.x_domain.scale is Logarithmic,
        cfg.axis_color,
    ) + y_mesh_cmds(
        cfg.primary_domain,
        ticks_for(cfg.primary_domain, y_tick_count(f)),
        f,
        false,
        cfg.y_mesh,
        cfg.primary_domain.scale is Logarithmic,
        cfg.axis_color,
    ) + y_mesh_cmds(
        cfg.secondary_domain,
        ticks_for(cfg.secondary_domain, y_tick_count(f)),
        f,
        true,
        cfg.secondary_y_mesh,
        cfg.secondary_domain.scale is Logarithmic,
        cfg.axis_color,
    ) + polyline_cmds(cfg.x_domain, cfg.primary_domain, f, p_pts, p_color, p_width)
        + polyline_cmds(cfg.x_domain, cfg.secondary_domain, f, s_pts, s_color, s_width)
        + legend_cmds(
        seq![(0u32, p_color), (1u32, s_color)],
        f.left as int,
        f.bottom as int + 20,
        f.right as int - f.left as int,
        cfg.legend_background,
    )
}

/// What a render pass produces for given inputs: nothing on a zero-area
/// surface, the background alone when the plot frame has no room, the first
/// [`DomainError`] when one exists, and the full command list otherwise.
pub open spec fn render_result(
    w: u32,
    h: u32,
    cfg: ChartConfig,
    p_pts: Seq<SamplePoint>,
    p_color: Rgb,
    p_width: u32,
    s_pts: Seq<SamplePoint>,
    s_color: Rgb,
    s_width: u32,
) -> Result<Seq<DrawCmd>, DomainError> {
    if w == 0 || h == 0 {
        Ok(Seq::empty())
    } else if !frame_of(w, h, cfg).nonempty() {
        Ok(bg_only(w, h, cfg.background))
    } else if frame_err(cfg, p_pts, s_pts) is Some {
        Err(frame_err(cfg, p_pts, s_pts)->Some_0)
    } else {
        Ok(render_cmds(w, h, cfg, p_pts, p_color, p_width, s_pts, s_color, s_width))
    }
}

/// An executable result agrees with a specified one.
pub open spec fn result_matches(
    r: Result<Vec<DrawCmd>, DomainError>,
    s: Result<Seq<DrawCmd>, DomainError>,
) -> bool {
    &&& r is Ok <==> s is Ok
    &&& r is Ok ==> r->Ok_0@ == s->Ok_0
    &&& r is Err ==> r->Err_0 == s->Err_0
}

/// Renders one still frame: fills the background, builds the domains, draws
/// the meshes, the primary series against the primary axis and the secondary
/// series against the secondary axis, and composes the legend, failing fast
/// on the first error.  A zero-area surface is a successful no-op.  The
/// command list is a function of the arguments alone (see [`render_result`]),
/// so identical inputs always draw identical frames.
#[verifier::rlimit(100)]
#[verifier::spinoff_prover]
pub fn render(
    width: u32,
    height: u32,
    primary: &SeriesData,
    secondary: &SeriesData,
    cfg: &ChartConfig,
) -> (r: Result<Vec<DrawCmd>, DomainError>)
    requires
        cfg.wf(),
        primary.wf(),
        secondary.wf(),
    ensures
        result_matches(
            r,
            render_result(
                width,
                height,
                *cfg,
                primary.points@,
                primary.color,
                primary.stroke_width,
                secondary.points@,
                secondary.color,
                secondary.stroke_width,
            ),
        ),
        width == 0 || height == 0 ==> r is Ok && r->Ok_0@.len() == 0,
{
    if width == 0 || height == 0 {
        return Ok(Vec::new());
    }
    let left: i64 = cfg.margin as i64 + cfg.y_label_area as i64;
    let right: i64 = width as i64 - cfg.margin as i64 - cfg.right_y_label_area as i64;
    let top: i64 = cfg.margin as i64 + cfg.caption_size as i64;
    let bottom: i64 = height as i64 - cfg.margin as i64 - cfg.x_label_area as i64;
    let f = PlotFrame { left, right, top, bottom };
    proof {
        assert(f == frame_of(width, height, *cfg));
    }
    let mut cmds: Vec<DrawCmd> = Vec::new();
    cmds.push(DrawCmd::FillRect {
        x: 0,
        y: 0,
        w: width as i64,
        h: height as i64,
        color: cfg.background,
    });
    if !(left < right && top < bottom) {
        proof {
            assert(cmds@ =~= bg_only(width, height, cfg.background));
        }
        return Ok(cmds);
    }
    match check_domain(&cfg.x_domain) {
        Err(e) => {
            return Err(e);
        },
        Ok(_) => {},
    }
    match check_domain(&cfg.primary_domain) {
        Err(e) => {
            return Err(e);
        },
        Ok(_) => {},
    }
    match check_domain(&cfg.secondary_domain) {
        Err(e) => {
            return Err(e);
        },
        Ok(_) => {},
    }
    cmds.push(DrawCmd::Text {
        x: (width / 2) as i64,
        y: (cfg.margin + cfg.caption_size / 2) as i64,
        id: TextId::Caption,
        size: cfg.caption_size,
        color: cfg.axis_color,
    });
    let midy: i64 = (((top + bottom) as u64) / 2) as i64;
    cmds.push(DrawCmd::Text {
        x: left - cfg.y_label_area as i64 + 4,
        y: midy,
        id: TextId::PrimaryAxisDesc,
        size: 12,
        color: cfg.axis_color,
    });
    cmds.push(DrawCmd::Text {
        x: right + cfg.right_y_label_area as i64 - 4,
        y: midy,
        id: TextId::SecondaryAxisDesc,
        size: 12,
        color: cfg.axis_color,
    });
    proof {
        assert(cmds@ =~= header_cmds(width, height, *cfg, f));
    }
    let pw: u64 = (right - left) as u64;
    let xc64: u64 = pw / 80;
    let xcount: u32 = if xc64 < 1 {
        1
    } else if xc64 > 12 {
        12
    } else {
        xc64 as u32
    };
    proof {
        assert(xcount as int == x_tick_count(f));
    }
    let ph: u64 = (bottom - top) as u64;
    let yc64: u64 = ph / 40;
    let ycount: u32 = if yc64 < 1 {
        1
    } else if yc64 > 12 {
        12
    } else {
        yc64 as u32
    };
    proof {
        assert(ycount as int == y_tick_count(f));
    }
    let x_sci = match cfg.x_domain.scale {
        Scale::Logarithmic => true,
        Scale::Linear => false,
    };
    let xticks = make_ticks(&cfg.x_domain, xcount);
    proof {
        lemma_ticks_for_in_range(cfg.x_domain, xcount as int);
    }
    let mut m1 = x_mesh(&cfg.x_domain, &xticks, f, cfg.x_mesh, x_sci, cfg.axis_color);
    cmds.append(&mut m1);
    let p_sci = match cfg.primary_domain.scale {
        Scale::Logarithmic => true,
        Scale::Linear => false,
    };
    let pticks = make_ticks(&cfg.primary_domain, ycount);
    proof {
        lemma_ticks_for_in_range(cfg.primary_domain, ycount as int);
    }
    let mut m2 = y_mesh(&cfg.primary_domain, &pticks, f, false, cfg.y_mesh, p_sci, cfg.axis_color);
    cmds.append(&mut m2);
    let s_sci = match cfg.secondary_domain.scale {
        Scale::Logarithmic => true,
        Scale::Linear => false,
    };
    let sticks = make_ticks(&cfg.secondary_domain, ycount);
    proof {
        lemma_ticks_for_in_range(cfg.secondary_domain, ycount as int);
    }
    let mut m3 = y_mesh(
        &cfg.secondary_domain,
        &sticks,
        f,
        true,
        cfg.secondary_y_mesh,
        s_sci,
        cfg.axis_color,
    );
    cmds.append(&mut m3);
    let (mut pcmds, e1) = match draw_series(
        &primary.points,
        &cfg.x_domain,
        &cfg.primary_domain,
        f,
        primary.color,
        primary.stroke_width,
        primary.label.as_str(),
        0,
    ) {
        Ok(v) => v,
        Err(e) => {
            return Err(e);
        },
    };
    cmds.append(&mut pcmds);
    let (mut scmds, e2) = match draw_series(
        &secondary.points,
        &cfg.x_domain,
        &cfg.secondary_domain,
        f,
        secondary.color,
        secondary.stroke_width,
        secondary.label.as_str(),
        1,
    ) {
        Ok(v) => v,
        Err(e) => {
            return Err(e);
        },
    };
    cmds.append(&mut scmds);
    let mut entries: Vec<LegendEntry> = Vec::new();
    entries.push(e1);
    entries.push(e2);
    let mut lcmds = compose_legend(
        &entries,
        left,
        bottom + 20,
        right - left,
        cfg.legend_background,
    );
    proof {
        let em = entries@.map_values(|e: LegendEntry| (e.series_id, e.color));
        assert(em =~= seq![(0u32, primary.color), (1u32, secondary.color)]);
    }
    cmds.append(&mut lcmds);
    proof {
        assert(cmds@ =~= render_cmds(
            width,
            height,
            *cfg,
            primary.points@,
            primary.color,
            primary.stroke_width,
            secondary.points@,
            secondary.color,
            secondary.stroke_width,
        ));
    }
    Ok(cmds)
}

/// Clears the surface to the background color and nothing else: the blank
/// frame.  A zero-area surface again yields no commands.
pub fn render_blank(width: u32, height: u32, background: Rgb) -> (r: Vec<DrawCmd>)
    ensures
        width == 0 || height == 0 ==> r@.len() == 0,
        width > 0 && height > 0 ==> r@ == bg_only(width, height, background),
{
    let mut cmds: Vec<DrawCmd> = Vec::new();
    if width == 0 || height == 0 {
        return cmds;
    }
    cmds.push(DrawCmd::FillRect {
        x: 0,
        y: 0,
        w: width as i64,
        h: height as i64,
        color: background,
    });
    proof {
        assert(cmds@ =~= bg_only(width, height, background));
    }
    cmds
}

/// Rendering is deterministic: two command lists that both satisfy
/// [`render`]'s contract for the same surface dimensions, series and
/// configuration are equal, outcome and commands alike — there is no hidden
/// per-call state.
pub proof fn lemma_render_deterministic(
    r1: Result<Vec<DrawCmd>, DomainError>,
    r2: Result<Vec<DrawCmd>, DomainError>,
    w: u32,
    h: u32,
    cfg: ChartConfig,
    p_pts: Seq<SamplePoint>,
    p_color: Rgb,
    p_width: u32,
    s_pts: Seq<SamplePoint>,
    s_color: Rgb,
    s_width: u32,
)
    requires
        result_matches(r1, render_result(w, h, cfg, p_pts, p_color, p_width, s_pts, s_color, s_width)),
        result_matches(r2, render_result(w, h, cfg, p_pts, p_color, p_width, s_pts, s_color, s_width)),
    ensures
        r1 is Ok <==> r2 is Ok,
        r1 is Ok ==> r1->Ok_0@ == r2->Ok_0@,
        r1 is Err ==> r1->Err_0 == r2->Err_0,
{
}

} // verus!
