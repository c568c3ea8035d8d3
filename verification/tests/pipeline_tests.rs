use yumosu::config::{AnalysisConfig, FilterParams, COEFF_SCALE, MIN_BEAT_SEPARATION_MS};
use yumosu::errors::AnalysisError;
use yumosu::filter::{condition_samples, FilterCoeffs};
use yumosu::onset::{detect_onsets, OnsetScan};
use yumosu::pipeline::analyze_samples;

fn identity_coeffs() -> FilterCoeffs {
    FilterCoeffs::identity()
}

fn click_track(rate: usize, seconds: usize, clicks: &[usize]) -> Vec<i32> {
    let mut samples = vec![0i32; rate * seconds];
    for &click in clicks {
        let start = click * rate / 1000;
        for j in 0..64 {
            if start + j < samples.len() {
                samples[start + j] = 20000;
            }
        }
    }
    samples
}

#[test]
fn conditioner_preserves_length() {
    let samples: Vec<i32> = vec![5, -3, 1000, -32768, 32768, 0, 17];
    let out = condition_samples(&samples, &identity_coeffs());
    assert_eq!(out.len(), samples.len());
}

#[test]
fn conditioner_identity_passes_samples_through() {
    let samples: Vec<i32> = vec![5, -3, 1000, -32768, 32768, 0, 17];
    let out = condition_samples(&samples, &identity_coeffs());
    assert_eq!(out, samples);
}

#[test]
fn conditioner_is_deterministic() {
    let samples: Vec<i32> = (0..2000).map(|i| ((i * 37) % 65537) as i32 - 32768).collect();
    let coeffs = FilterCoeffs { b0: 8000, b1: 4000, b2: 2000, a1: -3000, a2: 1000 };
    let a = condition_samples(&samples, &coeffs);
    let b = condition_samples(&samples, &coeffs);
    assert_eq!(a, b);
    assert_eq!(a.len(), samples.len());
}

#[test]
fn conditioner_halves_with_half_gain() {
    let samples: Vec<i32> = vec![1000, -500, 32768];
    let coeffs = FilterCoeffs { b0: COEFF_SCALE / 2, b1: 0, b2: 0, a1: 0, a2: 0 };
    let out = condition_samples(&samples, &coeffs);
    assert_eq!(out, vec![500, -250, 16384]);
}

#[test]
fn lowpass_passes_dc_and_attenuates_alternation() {
    // fixed-point coefficients of a gentle low-pass section: the constant
    // signal must come through near full scale, the fastest alternation
    // must come out much smaller
    let coeffs = FilterCoeffs { b0: 3072, b1: 6144, b2: 3072, a1: -8192, a2: 4096 };
    let n = 4000;
    let dc: Vec<i32> = vec![10000; n];
    let alt: Vec<i32> = (0..n).map(|i| if i % 2 == 0 { 10000 } else { -10000 }).collect();
    let dc_out = condition_samples(&dc, &coeffs);
    let alt_out = condition_samples(&alt, &coeffs);
    let dc_tail: i64 = dc_out[n - 100..].iter().map(|&s| (s as i64).abs()).sum();
    let alt_tail: i64 = alt_out[n - 100..].iter().map(|&s| (s as i64).abs()).sum();
    assert!(dc_tail > 100 * 8000);
    assert!(alt_tail < dc_tail / 10);
}

#[test]
fn silence_yields_no_onsets() {
    let samples = vec![0i32; 80000];
    let cfg = AnalysisConfig::session_default();
    let onsets = detect_onsets(&samples, 8000, &cfg);
    assert!(onsets.is_empty());
}

#[test]
fn impulse_train_yields_onsets_near_each_impulse() {
    let rate = 8000usize;
    let clicks: Vec<usize> = (0..10).map(|k| k * 1000).collect();
    let samples = click_track(rate, 10, &clicks);
    let cfg = AnalysisConfig::session_default();
    let onsets = detect_onsets(&samples, rate as u32, &cfg);
    assert_eq!(onsets.len(), 10);
    for (k, &t) in onsets.iter().enumerate() {
        let ideal = (k as i64) * 1000;
        assert!((t - ideal).abs() <= 128, "onset {} at {} ms, expected near {}", k, t, ideal);
    }
}

#[test]
fn detection_rerun_is_identical() {
    let rate = 8000usize;
    let clicks: Vec<usize> = (0..10).map(|k| k * 1000).collect();
    let samples = click_track(rate, 10, &clicks);
    let cfg = AnalysisConfig::session_default();
    let first = detect_onsets(&samples, rate as u32, &cfg);
    let second = detect_onsets(&samples, rate as u32, &cfg);
    assert_eq!(first, second);
}

#[test]
fn onset_scan_restarts_from_the_top() {
    let rate = 8000usize;
    let samples = click_track(rate, 2, &[500]);
    let cfg = AnalysisConfig::session_default();
    let mut scan = OnsetScan::new();
    let mut reports_a = Vec::new();
    while let Some(w) = scan.next(&samples, &cfg) {
        reports_a.push((w.frame_index, w.strength, w.onset));
    }
    let mut scan = OnsetScan::new();
    let mut reports_b = Vec::new();
    while let Some(w) = scan.next(&samples, &cfg) {
        reports_b.push((w.frame_index, w.strength, w.onset));
    }
    assert_eq!(reports_a, reports_b);
    assert!(!reports_a.is_empty());
    assert!(reports_a.iter().any(|&(_, _, onset)| onset));
}

#[test]
fn end_to_end_click_track_schedules_ordered_targets() {
    let rate = 8000usize;
    let clicks: Vec<usize> = (0..10).map(|k| k * 1000).collect();
    let samples = click_track(rate, 10, &clicks);
    let cfg = AnalysisConfig::session_default();
    let beats = analyze_samples(&samples, rate as u32, &identity_coeffs(), &cfg);
    assert!(beats.len() >= 9 && beats.len() <= 10, "got {} beats", beats.len());
    let targets = yumosu::schedule::schedule_targets(&beats, 200, 400, 300, 1500, 5000);
    assert!(targets.len() >= 9 && targets.len() <= 10);
    for w in targets.windows(2) {
        assert!(w[0].spawn_time_ms < w[1].spawn_time_ms);
    }
    for (i, t) in targets.iter().enumerate() {
        assert_eq!(t.spawn_time_ms, beats[i] - 1500 + 5000);
        assert_eq!(t.hit_time_ms, beats[i] + 5000);
    }
}

#[test]
fn pipeline_respects_minimum_separation() {
    let rate = 8000usize;
    // clicks 100 ms apart: closer than the minimum separation
    let clicks: Vec<usize> = (0..20).map(|k| 1000 + k * 100).collect();
    let samples = click_track(rate, 4, &clicks);
    let cfg = AnalysisConfig::session_default();
    let beats = analyze_samples(&samples, rate as u32, &identity_coeffs(), &cfg);
    for w in beats.windows(2) {
        assert!(w[1] - w[0] >= MIN_BEAT_SEPARATION_MS);
        assert!(w[0] < w[1]);
    }
}

#[test]
fn filter_params_validation() {
    let good = FilterParams { sample_rate_hz: 44100, cutoff_hz: 120, q_milli: 1000 };
    assert!(good.validate().is_ok());
    let at_nyquist = FilterParams { sample_rate_hz: 44100, cutoff_hz: 22050, q_milli: 1000 };
    assert_eq!(at_nyquist.validate(), Err(AnalysisError::InvalidFilterParameters));
    let zero_rate = FilterParams { sample_rate_hz: 0, cutoff_hz: 120, q_milli: 1000 };
    assert_eq!(zero_rate.validate(), Err(AnalysisError::InvalidFilterParameters));
}

#[test]
fn error_descriptions() {
    assert_eq!(AnalysisError::DecodeError.describe(), "could not decode the audio file");
    assert_eq!(
        AnalysisError::InvalidFilterParameters.describe(),
        "invalid filter parameters"
    );
    assert_eq!(AnalysisError::AnalysisCancelled.describe(), "analysis cancelled");
}
