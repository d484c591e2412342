//! Failures that the engine and its host report.

use vstd::prelude::*;

verus! {

/// What went wrong. None of these is recovered from: the mode that met the
/// failure does not start, or ends.
#[derive(Copy, Clone, Debug, PartialEq, Eq, Structural)]
pub enum EngineError {
    /// The chart data is malformed.
    ParseError,
    /// An asset that the chart refers to is missing.
    AssetError,
    /// A recorded chart could not be written.
    IoError,
    /// A component was asked for something its state does not hold.
    StateError,
}

} // verus!
