//! Ingestion of oscilloscope CSV exports: named settings scattered over a
//! ragged grid of text cells, and a paired sample series read from two fixed
//! columns, with running bounds for plotting.

pub mod config;
pub mod error;
pub mod grid;
pub mod integer;
pub mod lookup;
pub mod number;
pub mod series;
pub mod waveform;

pub use crate::config::{load_settings, WaveformConfig};
pub use crate::error::{Side, WaveformError};
pub use crate::grid::{parse_rows, Cell};
pub use crate::series::{load_series, Extrema, Series};
pub use crate::waveform::{Cli, RenderSpec, Waveform};
