//! The error taxonomy of the analysis path. Per-frame lifecycle and judge
//! operations never fail; only decoding and filter construction can.

use vstd::prelude::*;

verus! {

/// What can go wrong while a track is analyzed.
#[derive(Clone, Copy, Debug, PartialEq, Eq, Structural)]
pub enum AnalysisError {
    /// The audio file could not be read or decoded.
    DecodeError,
    /// The filter was configured with a cutoff at or above Nyquist, or a
    /// zero sample rate.
    InvalidFilterParameters,
    /// The session left the analyzing phase before the result arrived; the
    /// result is discarded, not surfaced.
    AnalysisCancelled,
}

impl AnalysisError {
    /// A short description for display at the UI boundary.
    pub fn describe(&self) -> (r: &'static str)
        ensures
            *self is DecodeError ==> r@ == "could not decode the audio file"@,
            *self is InvalidFilterParameters ==> r@ == "invalid filter parameters"@,
            *self is AnalysisCancelled ==> r@ == "analysis cancelled"@,
    {
        match self {
            AnalysisError::DecodeError => "could not decode the audio file",
            AnalysisError::InvalidFilterParameters => "invalid filter parameters",
            AnalysisError::AnalysisCancelled => "analysis cancelled",
        }
    }
}

} // verus!
