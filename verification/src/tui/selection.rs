//! Row selection shared by the table views.
use vstd::prelude::*;

verus! {

/// Selection after moving down over `count` rows: the next row, wrapping
/// to the first; unchanged when there are no rows.
pub open spec fn select_down(sel: Option<usize>, count: nat) -> Option<usize> {
    if count == 0 {
        sel
    } else {
        match sel {
            Some(i) => if i + 1 < count { Some((i + 1) as usize) } else { Some(0) },
            None => Some(0),
        }
    }
}

/// Selection after moving up: the previous row, stopping at the first.
pub open spec fn select_up(sel: Option<usize>) -> Option<usize> {
    match sel {
        Some(i) => if i == 0 { Some(0) } else { Some((i - 1) as usize) },
        None => Some(0),
    }
}

/// Scroll offset that keeps `row` at or below the top of the window.
pub open spec fn scroll_to(row: usize, offset: usize) -> usize {
    if row < offset { row } else { offset }
}

/// The row below `sel` among `count` rows, wrapping to the first.
pub fn next_row(sel: Option<usize>, count: usize) -> (r: usize)
    requires
        count > 0,
    ensures
        select_down(sel, count as nat) == Some(r),
{
    match sel {
        Some(i) => if i < count - 1 { i + 1 } else { 0 },
        None => 0,
    }
}

/// The row above `sel`, stopping at the first.
pub fn previous_row(sel: Option<usize>) -> (r: usize)
    ensures
        select_up(sel) == Some(r),
{
    match sel {
        Some(i) => if i == 0 { 0 } else { i - 1 },
        None => 0,
    }
}

/// Moving down over a non-empty table always selects one of its rows;
/// moving up never goes past the first row or further down.
pub proof fn lemma_selection_moves_stay_in_table(sel: Option<usize>, count: nat)
    ensures
        count > 0 ==> (select_down(sel, count) matches Some(r) && r < count),
        select_up(sel) matches Some(r) && (sel matches Some(i) ==> r <= i),
{
}

} // verus!
