//! The drawing commands a render pass produces.
//!
//! The renderer never touches a pixel surface itself: it returns a list of
//! primitive commands, and the host replays them on whatever backend it owns
//! and then presents the frame.  Commands carry only plain values, so two
//! equal command lists draw pixel-identical frames.

use vstd::prelude::*;
use crate::fixed::px_ok;

verus! {

/// The pixel rectangle the plot area occupies, by its four edges.
#[derive(Clone, Copy, PartialEq, Eq, Structural, Debug)]
pub struct PlotFrame {
    pub left: i64,
    pub right: i64,
    pub top: i64,
    pub bottom: i64,
}

impl PlotFrame {
    /// All edges lie in the pixel band.
    pub open spec fn bounded(self) -> bool {
        px_ok(self.left as int) && px_ok(self.right as int) && px_ok(self.top as int) && px_ok(
            self.bottom as int,
        )
    }

    /// The frame encloses at least one pixel.
    pub open spec fn nonempty(self) -> bool {
        self.left < self.right && self.top < self.bottom
    }
}

/// An 8-bit-per-channel color.
#[derive(Clone, Copy, PartialEq, Eq, Structural, Debug)]
pub struct Rgb {
    pub r: u8,
    pub g: u8,
    pub b: u8,
}

/// Which caller-supplied text a `Text` command stands for.  The host resolves
/// the id against the caption, axis descriptions and series labels it passed
/// in; the renderer itself never copies text into a command.
#[derive(Clone, Copy, PartialEq, Eq, Structural, Debug)]
pub enum TextId {
    Caption,
    PrimaryAxisDesc,
    SecondaryAxisDesc,
    /// The label of the series drawn at this position in draw order.
    SeriesLabel(u32),
}

/// One primitive drawing operation.  All coordinates are pixels; rectangles
/// are given by their top-left corner and extent.
#[derive(Clone, Copy, PartialEq, Eq, Structural, Debug)]
pub enum DrawCmd {
    FillRect { x: i64, y: i64, w: i64, h: i64, color: Rgb },
    Line { x0: i64, y0: i64, x1: i64, y1: i64, color: Rgb, width: u32 },
    Text { x: i64, y: i64, id: TextId, size: u32, color: Rgb },
    /// A numeric tick label, anchored at `(x, y)`: `value` is the fixed-point
    /// data value of the tick, and `scientific` asks the host to format it in
    /// exponential notation.
    TickLabel { x: i64, y: i64, value: i64, scientific: bool, color: Rgb },
}

} // verus!
