//! Settings lookup: a setting is a cell that holds a name, and its value is
//! the cell that follows it in the same row. Names may stand anywhere in the
//! grid; the first one in scan order, rows top to bottom and cells left to
//! right, is the one that counts.

use crate::error::{ErrorView, WaveformError};
use crate::grid::{Cell, CellView, Grid};
use vstd::prelude::*;

verus! {

/// The cell at `(row, col)` exists and its text is exactly `name`.
pub open spec fn names_at(grid: Grid, name: Seq<char>, row: int, col: int) -> bool {
    &&& 0 <= row < grid.len()
    &&& 0 <= col < grid[row].len()
    &&& grid[row][col].text == name
}

/// The scan reaches `(r1, c1)` before it reaches `(r2, c2)`.
pub open spec fn scanned_before(r1: int, c1: int, r2: int, c2: int) -> bool {
    r1 < r2 || (r1 == r2 && c1 < c2)
}

/// The cell at `(row, col)` holds `name`, and no cell that the scan reaches
/// earlier does.
pub open spec fn first_named_at(grid: Grid, name: Seq<char>, row: int, col: int) -> bool {
    &&& names_at(grid, name, row, col)
    &&& forall|r: int, c: int| scanned_before(r, c, row, col) ==> !names_at(grid, name, r, c)
}

/// Some cell of the grid holds `name`.
pub open spec fn is_named(grid: Grid, name: Seq<char>) -> bool {
    exists|r: int, c: int| names_at(grid, name, r, c)
}

/// Where the scan first meets `name`. Meaningful only if [`is_named`] holds.
pub open spec fn first_named(grid: Grid, name: Seq<char>) -> (int, int) {
    choose|p: (int, int)| first_named_at(grid, name, p.0, p.1)
}

/// The value of the setting `name`: the cell that follows the first cell
/// holding `name`. There is none if no cell holds `name`, or if the first one
/// that does ends its row.
pub open spec fn setting(grid: Grid, name: Seq<char>) -> Option<CellView> {
    if is_named(grid, name) {
        let (row, col) = first_named(grid, name);
        if col + 1 < grid[row].len() {
            Some(grid[row][col + 1])
        } else {
            None
        }
    } else {
        None
    }
}

/// Two places that both are the first to hold `name` are the same place.
pub proof fn lemma_first_named_unique(
    grid: Grid,
    name: Seq<char>,
    r1: int,
    c1: int,
    r2: int,
    c2: int,
)
    requires
        first_named_at(grid, name, r1, c1),
        first_named_at(grid, name, r2, c2),
    ensures
        r1 == r2,
        c1 == c2,
{
    if scanned_before(r1, c1, r2, c2) {
        assert(!names_at(grid, name, r1, c1));
    }
    if scanned_before(r2, c2, r1, c1) {
        assert(!names_at(grid, name, r2, c2));
    }
}

/// First occurrence wins: once `name` is first met at `(row, col)`, the
/// setting's value is the cell right after that place, whatever later cells
/// hold, and there is no value if that place ends its row.
pub proof fn lemma_first_occurrence_wins(grid: Grid, name: Seq<char>, row: int, col: int)
    requires
        first_named_at(grid, name, row, col),
    ensures
        is_named(grid, name),
        first_named(grid, name) == (row, col),
        col + 1 < grid[row].len() ==> setting(grid, name) == Some(grid[row][col + 1]),
        col + 1 >= grid[row].len() ==> setting(grid, name).is_none(),
{
    assert(names_at(grid, name, row, col));
    let here = (row, col);
    assert(first_named_at(grid, name, here.0, here.1));
    let p = first_named(grid, name);
    assert(first_named_at(grid, name, p.0, p.1));
    lemma_first_named_unique(grid, name, p.0, p.1, row, col);
}

/// Finds where the scan first meets `name`, if it does.
pub fn locate(rows: &Vec<Vec<Cell>>, name: &str) -> (r: Option<(usize, usize)>)
    ensures
        match r {
            Some((row, col)) => first_named_at(rows.deep_view(), name@, row as int, col as int),
            None => !is_named(rows.deep_view(), name@),
        },
{
    let wanted: String = name.to_owned();
    let ghost grid = rows.deep_view();
    let mut i: usize = 0;
    while i < rows.len()
        invariant
            i <= rows.len(),
            grid == rows.deep_view(),
            wanted@ == name@,
            forall|r: int, c: int| r < i ==> !names_at(grid, name@, r, c),
        decreases rows.len() - i,
    {
        let row = &rows[i];
        assert(grid[i as int] == row.deep_view());
        let mut j: usize = 0;
        while j < row.len()
            invariant
                i < rows.len(),
                j <= row.len(),
                grid == rows.deep_view(),
                grid[i as int] == row.deep_view(),
                wanted@ == name@,
                forall|r: int, c: int| r < i ==> !names_at(grid, name@, r, c),
                forall|c: int| c < j ==> !names_at(grid, name@, i as int, c),
            decreases row.len() - j,
        {
            assert(grid[i as int][j as int] == row[j as int]@);
            if row[j].text == wanted {
                assert(names_at(grid, name@, i as int, j as int));
                return Some((i, j));
            }
            j += 1;
        }
        i += 1;
    }
    assert forall|r: int, c: int| !names_at(grid, name@, r, c) by {
        if 0 <= r < grid.len() {
            assert(r < i);
        }
    }
    None
}

/// Looks a setting up: the cell after the first cell that holds `name`.
///
/// Fails with `SettingNotFound`, naming the setting, when no cell holds
/// `name` and when the first one that does is the last of its row.
pub fn find<'a>(rows: &'a Vec<Vec<Cell>>, name: &str) -> (r: Result<&'a Cell, WaveformError>)
    ensures
        match r {
            Ok(cell) => setting(rows.deep_view(), name@) == Some(cell@),
            Err(e) => setting(rows.deep_view(), name@).is_none() && e@ == (
            ErrorView::SettingNotFound { name: name@ }),
        },
{
    let ghost grid = rows.deep_view();
    match locate(rows, name) {
        Some((row, col)) => {
            proof {
                lemma_first_occurrence_wins(grid, name@, row as int, col as int);
            }
            let cells = &rows[row];
            assert(grid[row as int] == cells.deep_view());
            assert(col < cells.len());
            if col + 1 < cells.len() {
                assert(grid[row as int][col + 1] == cells[col + 1]@);
                Ok(&cells[col + 1])
            } else {
                Err(WaveformError::SettingNotFound { name: name.to_owned() })
            }
        },
        None => Err(WaveformError::SettingNotFound { name: name.to_owned() }),
    }
}

} // verus!
