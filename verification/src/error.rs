//! Error types of the library.

use vstd::prelude::*;

use crate::time::DateRangeError;

verus! {

/// Errors that can occur during data download and processing.
#[derive(Debug, Clone)]
pub enum ParacasError {
    /// HTTP request failed.
    Http(String),
    /// LZMA decompression failed.
    Decompress(String),
    /// Invalid data format.
    Parse(String),
    /// Instrument not found.
    UnknownInstrument(String),
    /// Invalid date range.
    DateRange(DateRangeError),
    /// No data available for the requested period.
    NoDataAvailable {
        /// The instrument that had no data.
        instrument: String,
    },
    /// Output format error.
    Format(String),
}

} // verus!
