//! The processes page: one table over the whole area.

use crate::layout::{grid, is_grid, Rect};
use crate::pages::{arrange, arranged, Plan, Widget};
use vstd::prelude::*;

verus! {

/// The row that stays selected once a table of `rows` rows has been drawn:
/// a selection beyond the last row moves to the last row, and an empty
/// table has no selection.
pub open spec fn clamped(selected: Option<usize>, rows: int) -> Option<usize> {
    match selected {
        Some(i) => if rows <= 0 {
            None
        } else if i >= rows {
            Some((rows - 1) as usize)
        } else {
            Some(i)
        },
        None => None,
    }
}

/// Brings a selection back within a table of `rows` rows.
pub fn clamp(selected: Option<usize>, rows: usize) -> (kept: Option<usize>)
    ensures
        kept == clamped(selected, rows as int),
        kept matches Some(i) ==> i < rows,
{
    match selected {
        Some(i) => if rows == 0 {
            None
        } else if i >= rows {
            Some(rows - 1)
        } else {
            Some(i)
        },
        None => None,
    }
}

/// Lays out the processes page and settles which row is selected in a
/// table of `rows` rows.
pub fn draw(area: Rect, selected: &mut Option<usize>, rows: usize) -> (plan: Plan)
    requires
        area.wf(),
    ensures
        is_grid(area, 1, 1, plan.cells@),
        plan.widgets@ == seq![Widget::ProcessTable],
        plan.wf(),
        *final(selected) == clamped(*old(selected), rows as int),
{
    *selected = clamp(*selected, rows);
    let cells = grid(area, 1, 1);
    let mut widgets: Vec<Widget> = Vec::new();
    widgets.push(Widget::ProcessTable);
    proof {
        assert(cells@.len() == 1);
    }
    proof {
        assert(arranged(cells@.len() as int, widgets@, Seq::empty()) =~= widgets@);
    }
    arrange(cells, widgets, &Vec::new())
}

} // verus!
