//! A dual-Y-axis chart renderer over fixed-point coordinates.
//!
//! The renderer takes two numeric series, maps them through two
//! independently scaled vertical axes (one may be logarithmic) that share a
//! horizontal axis, and produces a list of drawing commands: background
//! fill, axis ticks and gridlines, series polylines, and a legend row.  The
//! host application replays the commands on whatever pixel surface it owns.
//!
//! Data values are fixed-point: an `i64` counts millionths of a data-space
//! unit (see [`fixed::FX_SCALE`]).  Pixel coordinates are plain `i64`.

pub mod chart;
pub mod domain;
pub mod draw;
pub mod fixed;
pub mod logscale;
pub mod legend;
pub mod mapper;
pub mod series;
pub mod ticks;
