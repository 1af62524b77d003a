//! The legend composer: a background panel and one swatch-plus-label slot
//! per drawn series, in draw order.

use vstd::prelude::*;
use crate::fixed::px_ok;
use crate::draw::{DrawCmd, Rgb, TextId};
use crate::series::LegendEntry;

verus! {

/// The commands of one legend slot anchored at `x` on the row midline `cy`:
/// a short horizontal swatch line, then the series label.
pub open spec fn legend_entry_cmds(x: int, cy: int, id: u32, color: Rgb) -> Seq<DrawCmd> {
    seq![
        DrawCmd::Line {
            x0: x as i64,
            y0: cy as i64,
            x1: (x + 20) as i64,
            y1: cy as i64,
            color: color,
            width: 2,
        },
        DrawCmd::Text {
            x: (x + 24) as i64,
            y: cy as i64,
            id: TextId::SeriesLabel(id),
            size: 12,
            color: color,
        },
    ]
}

/// The slots of a legend row, left to right in draw order, 140 pixels apart.
pub open spec fn legend_items_cmds(entries: Seq<(u32, Rgb)>, x: int, cy: int) -> Seq<DrawCmd>
    decreases entries.len(),
{
    if entries.len() == 0 {
        Seq::empty()
    } else {
        legend_items_cmds(entries.drop_last(), x, cy) + legend_entry_cmds(
            x + 140 * (entries.len() - 1),
            cy,
            entries.last().0,
            entries.last().1,
        )
    }
}

/// A legend row: the background panel first, then every slot on top of it.
pub open spec fn legend_cmds(entries: Seq<(u32, Rgb)>, x: int, y: int, w: int, bg: Rgb) -> Seq<
    DrawCmd,
> {
    seq![
        DrawCmd::FillRect { x: x as i64, y: y as i64, w: w as i64, h: 16, color: bg },
    ] + legend_items_cmds(entries, x + 4, y + 8)
}

/// Lays the collected legend entries out in a single row inside a panel
/// anchored at `(x, y)`: background first, then each entry's swatch and
/// label, in the order the series were drawn.
pub fn compose_legend(entries: &Vec<LegendEntry>, x: i64, y: i64, w: i64, bg: Rgb) -> (r: Vec<
    DrawCmd,
>)
    requires
        px_ok(x as int),
        px_ok(y as int),
        px_ok(w as int),
        entries@.len() <= 1000,
    ensures
        r@ == legend_cmds(
            entries@.map_values(|e: LegendEntry| (e.series_id, e.color)),
            x as int,
            y as int,
            w as int,
            bg,
        ),
{
    let ghost em = entries@.map_values(|e: LegendEntry| (e.series_id, e.color));
    let mut r: Vec<DrawCmd> = Vec::new();
    r.push(DrawCmd::FillRect { x, y, w, h: 16, color: bg });
    let cy: i64 = y + 8;
    let x0: i64 = x + 4;
    let mut i: usize = 0;
    proof {
        assert(em.take(0int) =~= Seq::<(u32, Rgb)>::empty());
        assert(r@ =~= legend_cmds(em.take(0int), x as int, y as int, w as int, bg));
    }
    while i < entries.len()
        invariant
            i <= entries@.len() <= 1000,
            px_ok(x as int),
            px_ok(y as int),
            px_ok(w as int),
            cy == y + 8,
            x0 == x + 4,
            em == entries@.map_values(|e: LegendEntry| (e.series_id, e.color)),
            em.len() == entries@.len(),
            r@ == legend_cmds(em.take(i as int), x as int, y as int, w as int, bg),
        decreases entries@.len() - i,
    {
        let e = &entries[i];
        let sx: i64 = x0 + 140 * (i as i64);
        r.push(DrawCmd::Line { x0: sx, y0: cy, x1: sx + 20, y1: cy, color: e.color, width: 2 });
        r.push(DrawCmd::Text {
            x: sx + 24,
            y: cy,
            id: TextId::SeriesLabel(e.series_id),
            size: 12,
            color: e.color,
        });
        proof {
            let taken = em.take(i as int + 1);
            assert(taken.drop_last() =~= em.take(i as int));
            assert(taken.last() == em[i as int]);
            assert(em[i as int] == (entries@[i as int].series_id, entries@[i as int].color));
            assert(r@ =~= legend_cmds(taken, x as int, y as int, w as int, bg));
        }
        i = i + 1;
    }
    proof {
        assert(em.take(em.len() as int) =~= em);
    }
    r
}

} // verus!
