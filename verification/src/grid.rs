//! The row grid: the ragged, two-dimensional array of cells that an input
//! file holds, and its recovery from the bytes of a comma-separated file.

use crate::error::{ErrorView, WaveformError};
use vstd::prelude::*;

verus! {

/// One cell of the grid: its text as it stands in the file, and the number
/// that the text reads as, where it reads as one.
///
/// The number is a double-precision bit pattern (see [`crate::number`]). It is
/// supplied by whoever builds the grid; a cell whose text is not a number has
/// none.
#[derive(Clone, Debug, PartialEq, Eq)]
pub struct Cell {
    pub text: String,
    pub number: Option<u64>,
}

/// A cell with its text as a sequence of characters.
pub struct CellView {
    pub text: Seq<char>,
    pub number: Option<u64>,
}

/// A grid as contracts see it: rows of cells, each row of its own width.
pub type Grid = Seq<Seq<CellView>>;

impl View for Cell {
    type V = CellView;

    open spec fn view(&self) -> CellView {
        CellView { text: self.text@, number: self.number }
    }
}

impl DeepView for Cell {
    type V = CellView;

    open spec fn deep_view(&self) -> CellView {
        self@
    }
}

impl Cell {
    /// A cell with the given text and reading.
    pub fn new(text: String, number: Option<u64>) -> (cell: Cell)
        ensures
            cell@ == (CellView { text: text@, number }),
    {
        Cell { text, number }
    }
}

/// The records that the `csv` crate reads from the bytes of a file, with a
/// comma as delimiter, no header row and rows of any width; `None` where a
/// record cannot be read as text.
pub uninterp spec fn csv_records(data: Seq<u8>) -> Option<Seq<Seq<Seq<char>>>>;

/// Declares `csv::Error`, so that it can be handed from the reading of
/// records to the place where it becomes a [`WaveformError`]. Nothing is known
/// of what a value of it holds.
#[verifier::external_type_specification]
#[verifier::external_body]
pub struct ExCsvError(csv::Error);

/// Reads every record of `data` through `csv::Reader::into_records`, on a
/// reader built by `csv::ReaderBuilder` with delimiter `,`, headers off and
/// flexible widths, and copies each field of each `csv::StringRecord` into a
/// `String`.
///
/// Nothing is proved of this function. The contract claims that what comes
/// back is a function of the bytes alone, named [`csv_records`]: the rows in
/// file order on success, and the crate's error for the first record that it
/// cannot read.
#[verifier::external_body]
fn read_records(data: &[u8]) -> (r: Result<Vec<Vec<String>>, csv::Error>)
    ensures
        match r {
            Ok(rows) => csv_records(data@) == Some(rows.deep_view()),
            Err(_) => csv_records(data@).is_none(),
        },
{
    csv::ReaderBuilder::new()
        .delimiter(b',')
        .has_headers(false)
        .flexible(true)
        .from_reader(data)
        .into_records()
        .map(|record| record.map(|fields| fields.iter().map(String::from).collect()))
        .collect()
}

/// Splits the bytes of a comma-separated file into rows of text cells.
///
/// Every record of the file is a row of the result, the first one too: none
/// is taken for a header. Fails with [`WaveformError::Io`] exactly when some
/// record cannot be read.
pub fn parse_rows(data: &[u8]) -> (r: Result<Vec<Vec<String>>, WaveformError>)
    ensures
        match r {
            Ok(rows) => csv_records(data@) == Some(rows.deep_view()),
            Err(e) => csv_records(data@).is_none() && e@ == ErrorView::Io,
        },
{
    match read_records(data) {
        Ok(rows) => Ok(rows),
        Err(_) => Err(WaveformError::Io),
    }
}

} // verus!
