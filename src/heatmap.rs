//! The completion heatmap: seven rows (Sunday to Saturday) by a number of
//! whole calendar weeks that fits the available width, the last week being
//! the one that holds today.

use crate::calendar::{find_next_saturday, saturday_on_or_after, today, valid_day};
use crate::habit::{contains_day, day_set, Habit};
use vstd::prelude::*;

verus! {

/// The state of one day in the heatmap.
#[derive(Clone, Copy, Debug, PartialEq, Eq, Structural)]
pub enum Cell {
    Completed,
    NotCompleted,
    /// A day after today: drawn blank.
    Future,
}

/// A laid-out heatmap: `cells[row][week]`, rows from Sunday (0) to
/// Saturday (6), weeks from the oldest (0) to the current one.
#[derive(Debug)]
pub struct Heatmap {
    pub weeks: usize,
    pub left_padding: usize,
    pub cells: Vec<Vec<Cell>>,
}

/// How many weekly columns fit in `width` characters. Each column takes one
/// character and one separating space; day labels take two more.
pub open spec fn week_count(width: int, show_day_labels: bool) -> int {
    let n = if show_day_labels {
        (width - 3) / 2
    } else {
        (width + 1) / 2 - 1
    };
    if n < 1 {
        1
    } else {
        n
    }
}

/// The width of the drawn grid, day labels included.
pub open spec fn content_width(weeks: int, show_day_labels: bool) -> int {
    if show_day_labels {
        2 * weeks + 1
    } else {
        2 * weeks - 1
    }
}

/// The padding that centres the grid in `width`, none if it does not fit.
pub open spec fn left_padding_for(width: int, show_day_labels: bool) -> int {
    let c = content_width(week_count(width, show_day_labels), show_day_labels);
    if width > c {
        (width - c) / 2
    } else {
        0
    }
}

/// The Sunday that begins the oldest of `weeks` weeks ending with the week
/// of `today`.
pub open spec fn grid_start(today: int, weeks: int) -> int {
    saturday_on_or_after(today) - (6 + 7 * (weeks - 1))
}

/// The day shown at `row` (day of the week) and `week`.
pub open spec fn cell_day(today: int, weeks: int, row: int, week: int) -> int {
    grid_start(today, weeks) + 7 * week + row
}

/// The state of `day`, seen on `today`, for a habit completed on `days`.
pub open spec fn cell_state(days: Seq<i32>, today: int, day: int) -> Cell {
    if day > today {
        Cell::Future
    } else if day_set(days).contains(day) {
        Cell::Completed
    } else {
        Cell::NotCompleted
    }
}

/// `h` is the heatmap of a habit completed on `days`, seen on `today`, laid
/// out in `width` characters.
pub open spec fn is_heatmap(h: Heatmap, days: Seq<i32>, today: int, width: int, show_day_labels: bool) -> bool {
    &&& h.weeks as int == week_count(width, show_day_labels)
    &&& h.left_padding as int == left_padding_for(width, show_day_labels)
    &&& h.cells@.len() == 7
    &&& forall|row: int| 0 <= row < 7 ==> (#[trigger] h.cells@[row])@.len() == h.weeks
    &&& forall|row: int, week: int|
        0 <= row < 7 && 0 <= week < h.weeks ==> (#[trigger] h.cells@[row]@[week]) == cell_state(
            days,
            today,
            cell_day(today, h.weeks as int, row, week),
        )
}

/// Lays out the heatmap of a habit completed on `days`, as seen on `today`,
/// in `width` characters.
pub fn heatmap_at(days: &Vec<i32>, today: i32, width: u16, show_day_labels: bool) -> (r: Heatmap)
    requires
        valid_day(today as int),
    ensures
        is_heatmap(r, days@, today as int, width as int, show_day_labels),
{
    let w = width as usize;
    let n: usize = if show_day_labels {
        if w >= 3 {
            (w - 3) / 2
        } else {
            0
        }
    } else {
        let half = (w + 1) / 2;
        if half >= 1 {
            half - 1
        } else {
            0
        }
    };
    let weeks: usize = if n < 1 {
        1
    } else {
        n
    };
    assert(weeks as int == week_count(width as int, show_day_labels));
    let content: usize = if show_day_labels {
        2 * weeks + 1
    } else {
        2 * weeks - 1
    };
    let left_padding: usize = if w > content {
        (w - content) / 2
    } else {
        0
    };
    let end_date = find_next_saturday(today);
    let start_date: i64 = end_date - (6 + 7 * (weeks as i64 - 1));
    let mut cells: Vec<Vec<Cell>> = Vec::new();
    let mut row: usize = 0;
    while row < 7
        invariant
            0 <= row <= 7,
            1 <= weeks <= 32767,
            start_date as int == grid_start(today as int, weeks as int),
            cells@.len() == row,
            forall|rr: int| 0 <= rr < row ==> (#[trigger] cells@[rr])@.len() == weeks,
            forall|rr: int, week: int|
                0 <= rr < row && 0 <= week < weeks ==> (#[trigger] cells@[rr]@[week]) == cell_state(
                    days@,
                    today as int,
                    cell_day(today as int, weeks as int, rr, week),
                ),
        decreases 7 - row,
    {
        let mut line: Vec<Cell> = Vec::new();
        let mut week: usize = 0;
        while week < weeks
            invariant
                0 <= row < 7,
                0 <= week <= weeks,
                1 <= weeks <= 32767,
                start_date as int == grid_start(today as int, weeks as int),
                line@.len() == week,
                forall|k: int|
                    0 <= k < week ==> (#[trigger] line@[k]) == cell_state(
                        days@,
                        today as int,
                        cell_day(today as int, weeks as int, row as int, k),
                    ),
            decreases weeks - week,
        {
            let day: i64 = start_date + 7 * week as i64 + row as i64;
            let cell = if day > today as i64 {
                Cell::Future
            } else if contains_day(days, day) {
                Cell::Completed
            } else {
                Cell::NotCompleted
            };
            line.push(cell);
            week += 1;
        }
        cells.push(line);
        row += 1;
    }
    Heatmap { weeks, left_padding, cells }
}

/// Lays out the heatmap of `habit` as seen today, in `width` characters;
/// `show_day_labels` puts the initial of each weekday before its row.
pub fn build_heatmap(habit: &Habit, width: u16, show_day_labels: bool) -> (r: Heatmap)
    ensures
        exists|day: int| valid_day(day) && is_heatmap(r, habit.completions@, day, width as int, show_day_labels),
{
    let day = today();
    heatmap_at(&habit.completions, day, width, show_day_labels)
}

/// The heatmap is determined by the set of completed days, the reference
/// day and the width alone: two layouts of the same inputs are identical,
/// whatever order or repetition the completions are listed in.
pub proof fn lemma_heatmap_deterministic(
    h1: Heatmap,
    h2: Heatmap,
    days1: Seq<i32>,
    days2: Seq<i32>,
    today: int,
    width: int,
    show_day_labels: bool,
)
    requires
        is_heatmap(h1, days1, today, width, show_day_labels),
        is_heatmap(h2, days2, today, width, show_day_labels),
        day_set(days1) == day_set(days2),
    ensures
        h1.weeks == h2.weeks,
        h1.left_padding == h2.left_padding,
        h1.cells@.len() == h2.cells@.len(),
        forall|row: int| 0 <= row < 7 ==> (#[trigger] h1.cells@[row])@ == h2.cells@[row]@,
{
    assert forall|row: int| 0 <= row < 7 implies (#[trigger] h1.cells@[row])@ == h2.cells@[row]@ by {
        assert(h1.cells@[row]@ =~= h2.cells@[row]@);
    }
}

} // verus!
