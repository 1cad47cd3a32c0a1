//! The ways in which an ingestion can fail.

use vstd::prelude::*;

verus! {

/// Which of the two data cells of a row a failure is about.
#[derive(Clone, Copy, Debug, PartialEq, Eq, Structural)]
pub enum Side {
    X,
    Y,
}

/// Why an ingestion stopped. Each kind carries what is needed to find the
/// offending place in the input.
#[derive(Clone, Debug, PartialEq, Eq)]
pub enum WaveformError {
    /// The input could not be read as rows of text cells.
    Io,
    /// No cell holds the setting's name, or the first one that does is the
    /// last cell of its row.
    SettingNotFound { name: String },
    /// The setting was found, but its text is not a value of the kind that
    /// the field needs.
    InvalidConfigValue { field: String },
    /// The row is too short to have both data cells.
    MissingDataCell { row: usize },
    /// A data cell that is not empty does not hold a number.
    InvalidSampleValue { row: usize, side: Side },
}

/// A failure with its names as sequences of characters.
pub enum ErrorView {
    Io,
    SettingNotFound { name: Seq<char> },
    InvalidConfigValue { field: Seq<char> },
    MissingDataCell { row: nat },
    InvalidSampleValue { row: nat, side: Side },
}

impl View for WaveformError {
    type V = ErrorView;

    open spec fn view(&self) -> ErrorView {
        match *self {
            WaveformError::Io => ErrorView::Io,
            WaveformError::SettingNotFound { name } => ErrorView::SettingNotFound { name: name@ },
            WaveformError::InvalidConfigValue { field } => ErrorView::InvalidConfigValue {
                field: field@,
            },
            WaveformError::MissingDataCell { row } => ErrorView::MissingDataCell {
                row: row as nat,
            },
            WaveformError::InvalidSampleValue { row, side } => ErrorView::InvalidSampleValue {
                row: row as nat,
                side,
            },
        }
    }
}

} // verus!
