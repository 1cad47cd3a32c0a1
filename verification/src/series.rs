//! The sample series: one pair of numbers from each row that has text in both
//! of its data cells, and the bounds of what was accepted.

use crate::error::{ErrorView, Side, WaveformError};
use crate::grid::{Cell, CellView, Grid};
use crate::number::{
    highest, lemma_highest_is_upper_bound, lemma_lowest_is_lower_bound, less, lower, lowest,
    max_with, min_with, upper, NEGATIVE_INFINITY, POSITIVE_INFINITY,
};
use vstd::prelude::*;

verus! {

/// The column of the horizontal value, counted from zero.
pub const X_COLUMN: usize = 3;

/// The column of the vertical value, counted from zero.
pub const Y_COLUMN: usize = 4;

/// The bounds of the accepted samples, as bit patterns.
#[derive(Clone, Copy, Debug, PartialEq, Eq)]
pub struct Extrema {
    pub min_x: u64,
    pub max_x: u64,
    pub min_y: u64,
    pub max_y: u64,
}

/// The samples of a waveform and their bounds.
#[derive(Clone, Debug, PartialEq, Eq)]
pub struct Series {
    /// The horizontal values, in row order.
    pub xs: Vec<u64>,
    /// The vertical values; `ys[i]` belongs to `xs[i]`.
    pub ys: Vec<u64>,
    /// The bounds of `xs` and of `ys`.
    pub extrema: Extrema,
}

/// A series with its values as sequences.
pub struct SeriesView {
    pub xs: Seq<u64>,
    pub ys: Seq<u64>,
    pub extrema: Extrema,
}

impl View for Series {
    type V = SeriesView;

    open spec fn view(&self) -> SeriesView {
        SeriesView { xs: self.xs@, ys: self.ys@, extrema: self.extrema }
    }
}

/// The bounds before any sample: each minimum is positive infinity and each
/// maximum negative infinity, so that the first sample sets both.
pub open spec fn seed() -> Extrema {
    Extrema {
        min_x: POSITIVE_INFINITY,
        max_x: NEGATIVE_INFINITY,
        min_y: POSITIVE_INFINITY,
        max_y: NEGATIVE_INFINITY,
    }
}

/// The bounds after one more sample.
pub open spec fn widened(extrema: Extrema, x: u64, y: u64) -> Extrema {
    Extrema {
        min_x: lower(extrema.min_x, x),
        max_x: upper(extrema.max_x, x),
        min_y: lower(extrema.min_y, y),
        max_y: upper(extrema.max_y, y),
    }
}

/// The bounds of two whole series.
pub open spec fn extrema_of(xs: Seq<u64>, ys: Seq<u64>) -> Extrema {
    Extrema { min_x: lowest(xs), max_x: highest(xs), min_y: lowest(ys), max_y: highest(ys) }
}

impl SeriesView {
    /// The two series are of one length, and the bounds are theirs.
    pub open spec fn well_formed(self) -> bool {
        &&& self.xs.len() == self.ys.len()
        &&& self.extrema == extrema_of(self.xs, self.ys)
    }
}

/// The row is wide enough to have both data cells.
pub open spec fn has_data_cells(row: Seq<CellView>) -> bool {
    row.len() > Y_COLUMN
}

/// The row has both data cells, and neither is empty.
pub open spec fn bears_sample(row: Seq<CellView>) -> bool {
    &&& has_data_cells(row)
    &&& row[X_COLUMN as int].text.len() > 0
    &&& row[Y_COLUMN as int].text.len() > 0
}

/// What stops the load at a row, if anything: a data cell is missing, or one
/// of two cells with text does not hold a number, the horizontal one being
/// looked at first. A row with an empty data cell stops nothing.
pub open spec fn row_fault(row: Seq<CellView>, index: nat) -> Option<ErrorView> {
    if !has_data_cells(row) {
        Some(ErrorView::MissingDataCell { row: index })
    } else if !bears_sample(row) {
        None
    } else if row[X_COLUMN as int].number.is_none() {
        Some(ErrorView::InvalidSampleValue { row: index, side: Side::X })
    } else if row[Y_COLUMN as int].number.is_none() {
        Some(ErrorView::InvalidSampleValue { row: index, side: Side::Y })
    } else {
        None
    }
}

/// Row `i` is the first row that stops the load.
pub open spec fn first_fault_row(grid: Grid, i: int) -> bool {
    &&& 0 <= i < grid.len()
    &&& row_fault(grid[i], i as nat).is_some()
    &&& forall|j: int| 0 <= j < i ==> row_fault(#[trigger] grid[j], j as nat).is_none()
}

/// The rows that contribute a sample, in file order.
pub open spec fn sample_rows(grid: Grid) -> Grid {
    grid.filter(|row: Seq<CellView>| bears_sample(row))
}

/// The horizontal values of the grid: the number in the horizontal data cell
/// of each row that contributes a sample.
pub open spec fn xs_of(grid: Grid) -> Seq<u64> {
    sample_rows(grid).map_values(|row: Seq<CellView>| row[X_COLUMN as int].number.unwrap())
}

/// The vertical values of the grid.
pub open spec fn ys_of(grid: Grid) -> Seq<u64> {
    sample_rows(grid).map_values(|row: Seq<CellView>| row[Y_COLUMN as int].number.unwrap())
}

/// What loading the series from a grid gives: the fault of the first row that
/// has one, or else the values of the contributing rows with their bounds.
pub open spec fn series(grid: Grid) -> Result<SeriesView, ErrorView> {
    if exists|i: int| first_fault_row(grid, i) {
        let i = choose|i: int| first_fault_row(grid, i);
        Err(row_fault(grid[i], i as nat).unwrap())
    } else {
        Ok(
            SeriesView {
                xs: xs_of(grid),
                ys: ys_of(grid),
                extrema: extrema_of(xs_of(grid), ys_of(grid)),
            },
        )
    }
}

/// One more row at the end of a grid adds its sample if it bears one, and
/// nothing otherwise.
pub proof fn lemma_push_row(grid: Grid, row: Seq<CellView>)
    ensures
        bears_sample(row) ==> xs_of(grid.push(row)) == xs_of(grid).push(
            row[X_COLUMN as int].number.unwrap(),
        ) && ys_of(grid.push(row)) == ys_of(grid).push(row[Y_COLUMN as int].number.unwrap()),
        !bears_sample(row) ==> xs_of(grid.push(row)) == xs_of(grid) && ys_of(grid.push(row))
            == ys_of(grid),
{
    let keep = |row: Seq<CellView>| bears_sample(row);
    let x = |row: Seq<CellView>| row[X_COLUMN as int].number.unwrap();
    let y = |row: Seq<CellView>| row[Y_COLUMN as int].number.unwrap();
    grid.lemma_filter_push(row, keep);
    if bears_sample(row) {
        grid.filter(keep).lemma_push_map_commute(x, row);
        grid.filter(keep).lemma_push_map_commute(y, row);
    }
}

/// The first row that stops the load decides its outcome.
pub proof fn lemma_first_fault_row_decides(grid: Grid, i: int)
    requires
        first_fault_row(grid, i),
    ensures
        series(grid) == Err::<SeriesView, ErrorView>(row_fault(grid[i], i as nat).unwrap()),
{
    let chosen = choose|i: int| first_fault_row(grid, i);
    if chosen < i {
        assert(row_fault(grid[chosen], chosen as nat).is_none());
    }
    if i < chosen {
        assert(row_fault(grid[i], i as nat).is_none());
    }
}

/// Skip on empty: a load that succeeds has as many samples as the grid has
/// rows with text in both data cells, in both series.
pub proof fn lemma_series_length(grid: Grid, loaded: SeriesView)
    requires
        series(grid) == Ok::<SeriesView, ErrorView>(loaded),
    ensures
        loaded.xs.len() == sample_rows(grid).len(),
        loaded.ys.len() == sample_rows(grid).len(),
        loaded.well_formed(),
{
}

/// The bounds enclose the samples: of a series that was loaded, no horizontal
/// value lies below `min_x` or above `max_x`, and no vertical value below
/// `min_y` or above `max_y`.
pub proof fn lemma_bounds_enclose_samples(grid: Grid, loaded: SeriesView, i: int)
    requires
        series(grid) == Ok::<SeriesView, ErrorView>(loaded),
        0 <= i < loaded.xs.len(),
    ensures
        !less(loaded.xs[i], loaded.extrema.min_x),
        !less(loaded.extrema.max_x, loaded.xs[i]),
        !less(loaded.ys[i], loaded.extrema.min_y),
        !less(loaded.extrema.max_y, loaded.ys[i]),
{
    lemma_lowest_is_lower_bound(loaded.xs, i);
    lemma_highest_is_upper_bound(loaded.xs, i);
    lemma_lowest_is_lower_bound(loaded.ys, i);
    lemma_highest_is_upper_bound(loaded.ys, i);
}

/// No row of the grid stops the load.
pub open spec fn faultless(grid: Grid) -> bool {
    forall|i: int| 0 <= i < grid.len() ==> row_fault(#[trigger] grid[i], i as nat).is_none()
}

/// Below every row that stops the load there is a first one that does.
pub proof fn lemma_some_fault_row_is_first(grid: Grid, i: int)
    requires
        0 <= i < grid.len(),
        row_fault(grid[i], i as nat).is_some(),
    ensures
        exists|k: int| first_fault_row(grid, k),
    decreases i,
{
    if forall|j: int| 0 <= j < i ==> row_fault(#[trigger] grid[j], j as nat).is_none() {
        assert(first_fault_row(grid, i));
    } else {
        let j = choose|j: int| 0 <= j < i && !row_fault(#[trigger] grid[j], j as nat).is_none();
        lemma_some_fault_row_is_first(grid, j);
    }
}

/// The load succeeds exactly on a grid of which no row stops it, and then
/// gives the values of the contributing rows with their bounds.
pub proof fn lemma_series_of_faultless(grid: Grid)
    ensures
        faultless(grid) <==> series(grid).is_ok(),
        faultless(grid) ==> series(grid) == Ok::<SeriesView, ErrorView>(
            SeriesView {
                xs: xs_of(grid),
                ys: ys_of(grid),
                extrema: extrema_of(xs_of(grid), ys_of(grid)),
            },
        ),
{
    if faultless(grid) {
        if exists|i: int| first_fault_row(grid, i) {
            let i = choose|i: int| first_fault_row(grid, i);
            assert(row_fault(grid[i], i as nat).is_none());
        }
    } else {
        let i = choose|i: int|
            0 <= i < grid.len() && !row_fault(#[trigger] grid[i], i as nat).is_none();
        lemma_some_fault_row_is_first(grid, i);
    }
}

/// Skip on empty: a row that has both data cells, one of them empty, may be
/// put anywhere into a grid or taken out of it; the load succeeds on the one
/// grid exactly when it does on the other, with the same series and bounds.
pub proof fn lemma_blank_row_changes_nothing(before: Grid, row: Seq<CellView>, after: Grid)
    requires
        has_data_cells(row),
        !bears_sample(row),
    ensures
        series(before + seq![row] + after).is_ok() <==> series(before + after).is_ok(),
        series(before + after).is_ok() ==> series(before + seq![row] + after) == series(
            before + after,
        ),
{
    let with = before + seq![row] + after;
    let without = before + after;
    let n = before.len() as int;
    lemma_series_of_faultless(with);
    lemma_series_of_faultless(without);
    if faultless(with) {
        assert forall|i: int| 0 <= i < without.len() implies row_fault(
            #[trigger] without[i],
            i as nat,
        ).is_none() by {
            if i < n {
                assert(with[i] == without[i]);
                assert(row_fault(with[i], i as nat).is_none());
            } else {
                assert(with[i + 1] == without[i]);
                assert(row_fault(with[i + 1], (i + 1) as nat).is_none());
            }
        }
    }
    if faultless(without) {
        assert forall|i: int| 0 <= i < with.len() implies row_fault(
            #[trigger] with[i],
            i as nat,
        ).is_none() by {
            if i < n {
                assert(with[i] == without[i]);
                assert(row_fault(without[i], i as nat).is_none());
            } else if i > n {
                assert(with[i] == without[i - 1]);
                assert(row_fault(without[i - 1], (i - 1) as nat).is_none());
            } else {
                assert(with[i] == row);
            }
        }
    }
    let keep = |row: Seq<CellView>| bears_sample(row);
    assert(sample_rows(with) == sample_rows(without)) by {
        Seq::filter_distributes_over_add(before + seq![row], after, keep);
        Seq::filter_distributes_over_add(before, seq![row], keep);
        Seq::filter_distributes_over_add(before, after, keep);
        assert(seq![row] =~= Seq::<Seq<CellView>>::empty().push(row));
        Seq::<Seq<CellView>>::empty().lemma_filter_push(row, keep);
        reveal(Seq::filter);
        assert(Seq::<Seq<CellView>>::empty().filter(keep) =~= Seq::<Seq<CellView>>::empty());
        assert(seq![row].filter(keep) =~= Seq::<Seq<CellView>>::empty());
        assert(before.filter(keep) + seq![row].filter(keep) =~= before.filter(keep));
    }
}

impl Extrema {
    /// The bounds before any sample.
    pub fn new() -> (extrema: Extrema)
        ensures
            extrema == seed(),
    {
        Extrema {
            min_x: POSITIVE_INFINITY,
            max_x: NEGATIVE_INFINITY,
            min_y: POSITIVE_INFINITY,
            max_y: NEGATIVE_INFINITY,
        }
    }

    /// Takes one more sample into the bounds.
    pub fn widen(&mut self, x: u64, y: u64)
        ensures
            *final(self) == widened(*old(self), x, y),
    {
        self.min_x = min_with(self.min_x, x);
        self.max_x = max_with(self.max_x, x);
        self.min_y = min_with(self.min_y, y);
        self.max_y = max_with(self.max_y, y);
    }
}

impl Series {
    /// The view of the series before any file is read.
    pub open spec fn new_view() -> SeriesView {
        SeriesView { xs: Seq::empty(), ys: Seq::empty(), extrema: seed() }
    }

    /// The series before any file is read: no samples, and the bounds at
    /// their seed.
    pub fn new() -> (series: Series)
        ensures
            series@ == Self::new_view(),
            series@.well_formed(),
    {
        Series { xs: Vec::new(), ys: Vec::new(), extrema: Extrema::new() }
    }
}

/// Loads the series from a grid.
///
/// Every row is looked at, from the top. A row without both data cells ends
/// the load with `MissingDataCell`; a row with an empty data cell is passed
/// over; of a row with text in both, each cell must hold a number, or the load
/// ends with `InvalidSampleValue`. What is accepted is appended to both series
/// and taken into the bounds. `capacity` is how many samples to make room for
/// beforehand; it bounds nothing.
pub fn load_series(rows: &Vec<Vec<Cell>>, capacity: usize) -> (r: Result<Series, WaveformError>)
    ensures
        match r {
            Ok(loaded) => series(rows.deep_view()) == Ok::<SeriesView, ErrorView>(loaded@)
                && loaded@.well_formed(),
            Err(e) => series(rows.deep_view()) == Err::<SeriesView, ErrorView>(e@),
        },
{
    let ghost grid = rows.deep_view();
    let mut xs: Vec<u64> = Vec::new();
    let mut ys: Vec<u64> = Vec::new();
    match xs.try_reserve(capacity) {
        Ok(_) => {},
        Err(_) => {},
    }
    match ys.try_reserve(capacity) {
        Ok(_) => {},
        Err(_) => {},
    }
    let mut extrema = Extrema::new();
    let mut i: usize = 0;
    assert(grid.take(0) =~= Seq::<Seq<CellView>>::empty());
    proof {
        reveal(Seq::filter);
    }
    assert(xs_of(grid.take(0)) =~= Seq::<u64>::empty());
    assert(ys_of(grid.take(0)) =~= Seq::<u64>::empty());
    while i < rows.len()
        invariant
            i <= rows.len(),
            grid == rows.deep_view(),
            xs@ == xs_of(grid.take(i as int)),
            ys@ == ys_of(grid.take(i as int)),
            extrema == extrema_of(xs@, ys@),
            forall|j: int| 0 <= j < i ==> row_fault(#[trigger] grid[j], j as nat).is_none(),
        decreases rows.len() - i,
    {
        let row = &rows[i];
        let ghost cells = grid[i as int];
        assert(cells == row.deep_view());
        proof {
            assert(grid.take(i + 1) =~= grid.take(i as int).push(cells));
            lemma_push_row(grid.take(i as int), cells);
        }
        if row.len() <= Y_COLUMN {
            proof {
                lemma_first_fault_row_decides(grid, i as int);
            }
            return Err(WaveformError::MissingDataCell { row: i });
        }
        let x_cell = &row[X_COLUMN];
        let y_cell = &row[Y_COLUMN];
        assert(cells[X_COLUMN as int] == x_cell@);
        assert(cells[Y_COLUMN as int] == y_cell@);
        if !x_cell.text.as_str().is_empty() && !y_cell.text.as_str().is_empty() {
            let x: u64 = match x_cell.number {
                Some(bits) => bits,
                None => {
                    proof {
                        lemma_first_fault_row_decides(grid, i as int);
                    }
                    return Err(WaveformError::InvalidSampleValue { row: i, side: Side::X });
                },
            };
            let y: u64 = match y_cell.number {
                Some(bits) => bits,
                None => {
                    proof {
                        lemma_first_fault_row_decides(grid, i as int);
                    }
                    return Err(WaveformError::InvalidSampleValue { row: i, side: Side::Y });
                },
            };
            let ghost old_xs = xs@;
            let ghost old_ys = ys@;
            xs.push(x);
            ys.push(y);
            extrema.widen(x, y);
            assert(xs@.drop_last() == old_xs);
            assert(ys@.drop_last() == old_ys);
        }
        i += 1;
    }
    assert(grid.take(i as int) =~= grid);
    Ok(Series { xs, ys, extrema })
}

} // verus!
