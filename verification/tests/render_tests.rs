use dualchart::chart::{render, render_blank, ChartConfig, SeriesData};
use dualchart::domain::{AxisDomain, DomainError, Scale};
use dualchart::draw::{DrawCmd, PlotFrame, Rgb, TextId};
use dualchart::legend::compose_legend;
use dualchart::series::{draw_series, LegendEntry, SamplePoint};

fn fx(v: f64) -> i64 {
    (v * 1e6).round() as i64
}

fn pt(x: f64, y: f64) -> SamplePoint {
    SamplePoint { x: fx(x), y: fx(y) }
}

const WHITE: Rgb = Rgb { r: 255, g: 255, b: 255 };
const BLACK: Rgb = Rgb { r: 0, g: 0, b: 0 };
const BLUE: Rgb = Rgb { r: 0, g: 0, b: 255 };
const RED: Rgb = Rgb { r: 255, g: 0, b: 0 };
const GRAY: Rgb = Rgb { r: 128, g: 128, b: 128 };

fn demo_config() -> ChartConfig {
    ChartConfig {
        caption: String::from("Dual Y-Axis Example"),
        primary_desc: String::from("Log Scale"),
        secondary_desc: String::from("Linear Scale"),
        caption_size: 50,
        margin: 10,
        x_label_area: 45,
        y_label_area: 45,
        right_y_label_area: 45,
        x_mesh: false,
        y_mesh: false,
        secondary_y_mesh: false,
        x_domain: AxisDomain { min: fx(0.0), max: fx(20.0), scale: Scale::Linear },
        primary_domain: AxisDomain { min: fx(0.1), max: fx(1e10), scale: Scale::Logarithmic },
        secondary_domain: AxisDomain { min: fx(-1.0), max: fx(1.0), scale: Scale::Linear },
        background: WHITE,
        axis_color: BLACK,
        legend_background: GRAY,
    }
}

fn demo_primary() -> SeriesData {
    SeriesData {
        points: vec![pt(0.0, 1.0), pt(1.0, 1.02), pt(2.0, 1.04)],
        label: String::from("y = 1.02^x^2"),
        color: BLUE,
        stroke_width: 3,
    }
}

fn demo_secondary() -> SeriesData {
    SeriesData {
        points: vec![pt(0.0, 0.0), pt(1.0, 0.1987), pt(2.0, 0.3894)],
        label: String::from("y = sin(2x)"),
        color: RED,
        stroke_width: 4,
    }
}

#[test]
fn zero_area_surface_is_a_successful_no_op() {
    let p = demo_primary();
    let s = demo_secondary();
    let cfg = demo_config();
    let r = render(0, 480, &p, &s, &cfg);
    assert_eq!(r, Ok(vec![]));
    let r = render(640, 0, &p, &s, &cfg);
    assert_eq!(r, Ok(vec![]));
    let r = render(0, 0, &p, &s, &cfg);
    assert_eq!(r, Ok(vec![]));
}

#[test]
fn render_is_deterministic() {
    let p = demo_primary();
    let s = demo_secondary();
    let cfg = demo_config();
    let first = render(640, 480, &p, &s, &cfg);
    let second = render(640, 480, &p, &s, &cfg);
    assert_eq!(first, second);
}

#[test]
fn scenario_two_series_draw_two_polylines_and_two_legend_entries() {
    let p = demo_primary();
    let s = demo_secondary();
    let cfg = demo_config();
    let cmds = render(640, 480, &p, &s, &cfg).expect("frame should render");
    let blue_segments: Vec<&DrawCmd> = cmds
        .iter()
        .filter(|c| matches!(c, DrawCmd::Line { color, width, .. } if *color == BLUE && *width == 3))
        .collect();
    let red_segments: Vec<&DrawCmd> = cmds
        .iter()
        .filter(|c| matches!(c, DrawCmd::Line { color, width, .. } if *color == RED && *width == 4))
        .collect();
    assert_eq!(blue_segments.len(), 2);
    assert_eq!(red_segments.len(), 2);
    let labels: Vec<u32> = cmds
        .iter()
        .filter_map(|c| match c {
            DrawCmd::Text { id: TextId::SeriesLabel(i), .. } => Some(*i),
            _ => None,
        })
        .collect();
    assert_eq!(labels, vec![0, 1]);
}

#[test]
fn scenario_negative_point_under_log_aborts_the_frame() {
    let mut p = demo_primary();
    p.points.push(pt(5.0, -3.0));
    let s = demo_secondary();
    let cfg = demo_config();
    let r = render(640, 480, &p, &s, &cfg);
    assert_eq!(r, Err(DomainError::NonPositive));
}

#[test]
fn scenario_degenerate_domain_aborts_the_frame() {
    let p = demo_primary();
    let s = demo_secondary();
    let mut cfg = demo_config();
    cfg.primary_domain = AxisDomain { min: fx(5.0), max: fx(5.0), scale: Scale::Linear };
    let r = render(640, 480, &p, &s, &cfg);
    assert_eq!(r, Err(DomainError::Degenerate));
}

#[test]
fn frame_starts_with_the_background_fill() {
    let p = demo_primary();
    let s = demo_secondary();
    let cfg = demo_config();
    let cmds = render(640, 480, &p, &s, &cfg).unwrap();
    assert_eq!(cmds[0], DrawCmd::FillRect { x: 0, y: 0, w: 640, h: 480, color: WHITE });
}

#[test]
fn surface_too_small_for_a_plot_gets_only_the_background() {
    let p = demo_primary();
    let s = demo_secondary();
    let cfg = demo_config();
    let cmds = render(30, 30, &p, &s, &cfg).unwrap();
    assert_eq!(cmds, vec![DrawCmd::FillRect { x: 0, y: 0, w: 30, h: 30, color: WHITE }]);
}

#[test]
fn short_series_draws_no_segment_but_registers_a_legend_entry() {
    let xd = AxisDomain { min: fx(0.0), max: fx(20.0), scale: Scale::Linear };
    let yd = AxisDomain { min: fx(0.1), max: fx(1e10), scale: Scale::Logarithmic };
    let f = PlotFrame { left: 55, right: 585, top: 60, bottom: 425 };
    let empty: Vec<SamplePoint> = vec![];
    let (cmds, entry) = draw_series(&empty, &xd, &yd, f, BLUE, 3, "only legend", 7).unwrap();
    assert!(cmds.is_empty());
    assert_eq!(entry.label, "only legend");
    assert_eq!(entry.series_id, 7);
    let one = vec![pt(1.0, 2.0)];
    let (cmds, entry) = draw_series(&one, &xd, &yd, f, BLUE, 3, "single point", 9).unwrap();
    assert!(cmds.is_empty());
    assert_eq!(entry.series_id, 9);
    assert_eq!(entry.color, BLUE);
}

#[test]
fn legend_row_has_a_panel_and_one_slot_per_entry() {
    let entries = vec![
        LegendEntry { label: String::from("a"), color: BLUE, series_id: 0 },
        LegendEntry { label: String::from("b"), color: RED, series_id: 1 },
    ];
    let cmds = compose_legend(&entries, 100, 400, 300, GRAY);
    assert_eq!(cmds.len(), 5);
    assert_eq!(cmds[0], DrawCmd::FillRect { x: 100, y: 400, w: 300, h: 16, color: GRAY });
    assert!(matches!(cmds[1], DrawCmd::Line { x0: 104, color, .. } if color == BLUE));
    assert!(matches!(cmds[2], DrawCmd::Text { id: TextId::SeriesLabel(0), .. }));
    assert!(matches!(cmds[3], DrawCmd::Line { x0: 244, color, .. } if color == RED));
    assert!(matches!(cmds[4], DrawCmd::Text { id: TextId::SeriesLabel(1), .. }));
}

#[test]
fn blank_frame_is_one_fill_or_nothing() {
    assert!(render_blank(0, 10, WHITE).is_empty());
    assert!(render_blank(10, 0, WHITE).is_empty());
    let cmds = render_blank(320, 200, WHITE);
    assert_eq!(cmds, vec![DrawCmd::FillRect { x: 0, y: 0, w: 320, h: 200, color: WHITE }]);
}

#[test]
fn log_axis_ticks_are_labelled_scientifically() {
    let p = demo_primary();
    let s = demo_secondary();
    let cfg = demo_config();
    let cmds = render(640, 480, &p, &s, &cfg).unwrap();
    let sci: Vec<i64> = cmds
        .iter()
        .filter_map(|c| match c {
            DrawCmd::TickLabel { value, scientific: true, .. } => Some(*value),
            _ => None,
        })
        .collect();
    assert_eq!(sci.len(), 12);
    assert_eq!(sci[0], fx(0.1));
    assert_eq!(sci[11], fx(1e10));
    let plain = cmds
        .iter()
        .filter(|c| matches!(c, DrawCmd::TickLabel { scientific: false, .. }))
        .count();
    assert!(plain > 0);
}
