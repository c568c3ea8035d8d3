use yumosu::debounce::debounce_beats;

#[test]
fn debounce_example_from_spacing_rule() {
    // 0.0, 0.05, 0.20, 0.21, 0.50 seconds with 0.15 s separation
    let beats: Vec<i64> = vec![0, 50, 200, 210, 500];
    let out = debounce_beats(&beats, 150);
    assert_eq!(out, vec![0, 200, 500]);
}

#[test]
fn debounce_keeps_first_beat() {
    let beats: Vec<i64> = vec![70, 80, 90];
    let out = debounce_beats(&beats, 150);
    assert_eq!(out, vec![70]);
}

#[test]
fn debounce_output_is_strictly_increasing_and_spaced() {
    let beats: Vec<i64> = vec![0, 10, 150, 150, 160, 299, 300, 600, 600, 601];
    let out = debounce_beats(&beats, 150);
    assert!(out.len() <= beats.len());
    for w in out.windows(2) {
        assert!(w[0] < w[1]);
        assert!(w[1] - w[0] >= 150);
    }
    assert_eq!(out[0], beats[0]);
}

#[test]
fn debounce_empty_input() {
    let beats: Vec<i64> = vec![];
    let out = debounce_beats(&beats, 150);
    assert!(out.is_empty());
}

#[test]
fn debounce_exact_separation_is_kept() {
    let beats: Vec<i64> = vec![0, 150, 300];
    let out = debounce_beats(&beats, 150);
    assert_eq!(out, vec![0, 150, 300]);
}

#[test]
fn debounce_duplicate_timestamps_are_dropped() {
    let beats: Vec<i64> = vec![100, 100, 100, 400];
    let out = debounce_beats(&beats, 150);
    assert_eq!(out, vec![100, 400]);
}
