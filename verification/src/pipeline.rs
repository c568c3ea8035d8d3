//! The full analysis pipeline: condition the raw stream, detect onsets,
//! debounce them. This is what runs over a decoded track to produce the
//! beat sequence a session schedules its targets from.

use vstd::prelude::*;
use crate::config::{samples_ok, AnalysisConfig, MAX_TIME_MS};
use crate::debounce::{
    debounce_beats, lemma_debounce_properties, spec_debounce, strictly_increasing, times_ok,
};
use crate::filter::{
    condition_samples, spec_condition, spec_init, spec_state_at, spec_step, FilterCoeffs,
    SignalConditioner,
};
use crate::onset::{detect_onsets, lemma_silence_no_onsets, spec_onset_times};

verus! {

/// The beat sequence the pipeline extracts from a raw stream.
pub open spec fn spec_analyze(
    s: Seq<i32>,
    rate: int,
    coeffs: FilterCoeffs,
    cfg: AnalysisConfig,
) -> Seq<i64> {
    spec_debounce(
        spec_onset_times(spec_condition(s, coeffs), cfg, rate),
        cfg.min_separation_ms as int,
    )
}

/// Run the whole pipeline over a decoded stream: filter it in order,
/// detect the onsets, and debounce them. The result is the strictly
/// increasing beat sequence of the track, spaced by at least the
/// configured minimum separation.
pub fn analyze_samples(
    samples: &Vec<i32>,
    sample_rate: u32,
    coeffs: &FilterCoeffs,
    cfg: &AnalysisConfig,
) -> (r: Vec<i64>)
    requires
        coeffs.wf(),
        cfg.wf(),
        sample_rate >= 1,
        samples_ok(samples@),
        samples@.len() + cfg.hop + cfg.window < usize::MAX,
        samples@.len() <= sample_rate * 86400,
    ensures
        r@ == spec_analyze(samples@, sample_rate as int, *coeffs, *cfg),
        strictly_increasing(r@),
        times_ok(r@),
        forall|j: int| 0 < j < r@.len()
            ==> #[trigger] r@[j] - r@[j - 1] >= cfg.min_separation_ms,
{
    let conditioned = condition_samples(samples, coeffs);
    let onsets = detect_onsets(&conditioned, sample_rate, cfg);
    let beats = debounce_beats(&onsets, cfg.min_separation_ms);
    proof {
        lemma_debounce_properties(onsets@, cfg.min_separation_ms as int);
    }
    beats
}

/// A silent input stays silent through the filter: from silent memory,
/// every output sample of an all-zero stream is zero.
pub proof fn lemma_condition_silence(s: Seq<i32>, coeffs: FilterCoeffs)
    requires
        forall|i: int| 0 <= i < s.len() ==> s[i] == 0,
    ensures
        forall|i: int| 0 <= i < spec_condition(s, coeffs).len()
            ==> #[trigger] spec_condition(s, coeffs)[i] == 0,
{
    assert forall|i: int| 0 <= i < spec_condition(s, coeffs).len()
        implies #[trigger] spec_condition(s, coeffs)[i] == 0 by {
        lemma_silent_state(s, coeffs, i);
    }
}

proof fn lemma_silent_state(s: Seq<i32>, coeffs: FilterCoeffs, i: int)
    requires
        forall|k: int| 0 <= k < s.len() ==> s[k] == 0,
        0 <= i <= s.len(),
    ensures
        spec_state_at(s, coeffs, i) == spec_init(coeffs),
        i < s.len() ==> spec_condition(s, coeffs)[i] == 0,
    decreases i,
{
    if i > 0 {
        lemma_silent_state(s, coeffs, i - 1);
        let st = spec_state_at(s, coeffs, i - 1);
        assert(st.coeffs.b0 * 0 == 0 && st.coeffs.b1 * 0 == 0 && st.coeffs.b2 * 0 == 0
            && st.coeffs.a1 * 0 == 0 && st.coeffs.a2 * 0 == 0) by (nonlinear_arith);
        assert(spec_step(st, s[i - 1]) == spec_init(coeffs));
    }
    if i < s.len() {
        let st = spec_state_at(s, coeffs, i);
        assert(st.coeffs.b0 * 0 == 0 && st.coeffs.b1 * 0 == 0 && st.coeffs.b2 * 0 == 0
            && st.coeffs.a1 * 0 == 0 && st.coeffs.a2 * 0 == 0) by (nonlinear_arith);
    }
}

/// End to end, a silent track yields no beats at all.
pub proof fn lemma_pipeline_silence(
    s: Seq<i32>,
    rate: int,
    coeffs: FilterCoeffs,
    cfg: AnalysisConfig,
)
    requires
        cfg.wf(),
        forall|i: int| 0 <= i < s.len() ==> s[i] == 0,
    ensures
        spec_analyze(s, rate, coeffs, cfg) == Seq::<i64>::empty(),
{
    lemma_condition_silence(s, coeffs);
    lemma_silence_no_onsets(spec_condition(s, coeffs), cfg, rate);
    assert(spec_debounce(Seq::<i64>::empty(), cfg.min_separation_ms as int)
        =~= Seq::<i64>::empty());
}

} // verus!
