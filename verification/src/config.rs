//! Session-wide configuration: timing constants, fixed-point scales, and
//! the parameter sets for the analysis pipeline.

use vstd::prelude::*;
use crate::errors::AnalysisError;

verus! {

/// Time a target takes to shrink from its full radius to nothing, in ms.
pub const SHRINK_TIME_MS: i64 = 1500;

/// Full radius of a freshly spawned target, in screen units.
pub const TARGET_MAX_RADIUS: i64 = 100;

/// Length of the countdown before play starts, in ms. Doubles as the
/// scheduling delay that aligns the first target with countdown completion.
pub const COUNTDOWN_DURATION_MS: i64 = 5000;

/// Minimum spacing between two accepted beats, in ms.
pub const MIN_BEAT_SEPARATION_MS: i64 = 150;

/// Analysis window length, in samples.
pub const ONSET_WINDOW: usize = 1024;

/// Hop between consecutive analysis windows, in samples.
pub const ONSET_HOP: usize = 512;

/// How long a feedback annotation stays on screen, in ms.
pub const ANNOTATION_DURATION_MS: i64 = 1000;

/// Largest amplitude a fixed-point sample may carry (16-bit full scale).
pub const SAMPLE_LIMIT: i32 = 32768;

/// Fixed-point scale of the filter coefficients.
pub const COEFF_SCALE: i64 = 16384;

/// Largest coefficient magnitude a well-formed filter accepts
/// (four times unity, ample for any stable second-order section).
pub const COEFF_LIMIT: i64 = 65536;

/// Upper bound on any time offset handled by the core, in ms (one day).
pub const MAX_TIME_MS: i64 = 86400000;

/// Upper bound on the magnitude of a screen coordinate.
pub const COORD_LIMIT: i64 = 16777216;

/// Upper bound on a spawn radius.
pub const RADIUS_LIMIT: i64 = 1048576;

/// A bounded, non-negative time offset in ms.
pub open spec fn time_ok(t: int) -> bool {
    0 <= t <= MAX_TIME_MS
}

/// A fixed-point sample within full scale.
pub open spec fn sample_ok(s: int) -> bool {
    -SAMPLE_LIMIT <= s <= SAMPLE_LIMIT
}

/// All samples of a stream within full scale.
pub open spec fn samples_ok(s: Seq<i32>) -> bool {
    forall|i: int| 0 <= i < s.len() ==> sample_ok(#[trigger] s[i] as int)
}

/// Parameters of the frequency-selective filter, as handed to the session
/// at startup. Validation rejects a cutoff at or above the Nyquist
/// frequency, and a zero sample rate.
pub struct FilterParams {
    /// Sample rate of the stream to filter, in Hz.
    pub sample_rate_hz: u32,
    /// Cutoff frequency of the filter, in Hz.
    pub cutoff_hz: u32,
    /// Quality factor, in thousandths (1000 is a quality factor of one).
    pub q_milli: u32,
}

impl FilterParams {
    /// The parameters a session may run with: a positive sample rate and a
    /// cutoff below the Nyquist frequency.
    pub open spec fn spec_valid(self) -> bool {
        &&& self.sample_rate_hz > 0
        &&& 2 * self.cutoff_hz < self.sample_rate_hz
    }

    /// Rejects a parameter set that no filter can be built from.
    pub fn validate(&self) -> (r: Result<(), AnalysisError>)
        ensures
            r is Ok <==> self.spec_valid(),
            r matches Err(e) ==> e is InvalidFilterParameters,
    {
        if self.sample_rate_hz == 0 {
            Err(AnalysisError::InvalidFilterParameters)
        } else if (self.cutoff_hz as u64) * 2 >= self.sample_rate_hz as u64 {
            Err(AnalysisError::InvalidFilterParameters)
        } else {
            Ok(())
        }
    }
}

/// Tuning of the onset detector: window geometry and the two energy
/// floors a window must clear to count as an onset.
pub struct AnalysisConfig {
    /// Analysis window length, in samples.
    pub window: usize,
    /// Hop between consecutive windows, in samples.
    pub hop: usize,
    /// Energy a window must exceed to count as loud.
    pub onset_threshold: i64,
    /// Energy floor below which the signal counts as silence.
    pub silence_floor: i64,
    /// Minimum spacing between two accepted beats, in ms.
    pub min_separation_ms: i64,
}

impl AnalysisConfig {
    /// A usable tuning: a positive hop no longer than the window, a window
    /// short enough that its energy cannot overflow, non-negative floors,
    /// and a positive beat separation.
    pub open spec fn wf(self) -> bool {
        &&& 0 < self.hop <= self.window <= 65536
        &&& 0 <= self.onset_threshold
        &&& 0 <= self.silence_floor
        &&& 1 <= self.min_separation_ms <= MAX_TIME_MS
    }

    /// The default tuning used by a session.
    pub fn session_default() -> (r: AnalysisConfig)
        ensures
            r.wf(),
            r.window == ONSET_WINDOW,
            r.hop == ONSET_HOP,
            r.min_separation_ms == MIN_BEAT_SEPARATION_MS,
    {
        AnalysisConfig {
            window: ONSET_WINDOW,
            hop: ONSET_HOP,
            onset_threshold: 1000000,
            silence_floor: 100000,
            min_separation_ms: MIN_BEAT_SEPARATION_MS,
        }
    }
}

} // verus!
