//! Onset detector: slides a fixed-size window over the conditioned stream,
//! advancing by a fixed hop, scores each window by its energy, and flags
//! the windows where the score first crosses the threshold after a quiet
//! stretch. A flagged window's timestamp is its first frame divided by the
//! sample rate.

use vstd::prelude::*;
use vstd::arithmetic::div_mod::{
    lemma_div_is_ordered, lemma_div_pos_is_pos, lemma_fundamental_div_mod,
    lemma_multiply_divide_le,
};
use crate::config::{sample_ok, samples_ok, AnalysisConfig, MAX_TIME_MS};

verus! {

/// What one analysis window reports: where it starts, how loud it is, and
/// whether it counts as an onset.
#[derive(Clone, Copy, Debug, PartialEq, Eq, Structural)]
pub struct WindowReport {
    /// Index of the first sample of the window.
    pub frame_index: usize,
    /// The window's energy score.
    pub strength: i64,
    /// Whether this window is the first loud one after a quiet stretch.
    pub onset: bool,
}

/// Window `k` lies wholly inside a stream of length `n`.
pub open spec fn window_fits(n: int, cfg: AnalysisConfig, k: int) -> bool {
    k >= 0 && k * cfg.hop + cfg.window <= n
}

/// How many windows fit in a stream of length `n`.
pub open spec fn spec_num_windows(n: int, cfg: AnalysisConfig) -> int {
    if n < cfg.window {
        0
    } else {
        (n - cfg.window) / (cfg.hop as int) + 1
    }
}

/// Sum of squares of the first `m` samples at `start`.
pub open spec fn energy_partial(s: Seq<i32>, start: int, m: int) -> int
    decreases m,
{
    if m <= 0 {
        0
    } else {
        energy_partial(s, start, m - 1) + s[start + m - 1] * s[start + m - 1]
    }
}

/// The energy score of window `k`.
pub open spec fn win_energy(s: Seq<i32>, cfg: AnalysisConfig, k: int) -> int {
    energy_partial(s, k * cfg.hop, cfg.window as int)
}

/// Window `k` is loud: its score exceeds the onset threshold.
pub open spec fn win_above(s: Seq<i32>, cfg: AnalysisConfig, k: int) -> bool {
    win_energy(s, cfg, k) > cfg.onset_threshold
}

/// Window `k` is an onset: loud, above the silence floor, and the first
/// such window after a stretch that was not loud — a window whose
/// predecessor was already loud never re-triggers.
pub open spec fn win_onset(s: Seq<i32>, cfg: AnalysisConfig, k: int) -> bool {
    &&& win_above(s, cfg, k)
    &&& win_energy(s, cfg, k) > cfg.silence_floor
    &&& (k == 0 || !win_above(s, cfg, k - 1))
}

/// Timestamp of frame `frame` at `rate` samples per second, in ms.
pub open spec fn frame_ms(frame: int, rate: int) -> int {
    frame * 1000 / rate
}

/// The timestamps of every onset among the first `k` windows, in window
/// order.
pub open spec fn onset_times_upto(
    s: Seq<i32>,
    cfg: AnalysisConfig,
    rate: int,
    k: int,
) -> Seq<i64>
    decreases k,
{
    if k <= 0 {
        Seq::empty()
    } else if win_onset(s, cfg, k - 1) {
        onset_times_upto(s, cfg, rate, k - 1)
            + seq![frame_ms((k - 1) * cfg.hop, rate) as i64]
    } else {
        onset_times_upto(s, cfg, rate, k - 1)
    }
}

/// The timestamps of every onset in the stream, in order.
pub open spec fn spec_onset_times(s: Seq<i32>, cfg: AnalysisConfig, rate: int) -> Seq<i64> {
    onset_times_upto(s, cfg, rate, spec_num_windows(s.len() as int, cfg))
}

/// A sequence of timestamps in non-decreasing order.
pub open spec fn sorted(xs: Seq<i64>) -> bool {
    forall|i: int, j: int| 0 <= i <= j < xs.len() ==> xs[i] <= xs[j]
}

/// A window fits exactly when its index is below the window count.
proof fn lemma_fits_iff(n: int, cfg: AnalysisConfig, k: int)
    requires
        cfg.wf(),
        k >= 0,
    ensures
        window_fits(n, cfg, k) <==> k < spec_num_windows(n, cfg),
{
    let d = cfg.hop as int;
    let w = cfg.window as int;
    if n < w {
        assert(k * d >= 0) by (nonlinear_arith)
            requires k >= 0 && d > 0;
    } else {
        let a = n - w;
        lemma_fundamental_div_mod(a, d);
        if k <= a / d {
            assert(k * d <= (a / d) * d) by (nonlinear_arith)
                requires k <= a / d && d > 0;
            assert((a / d) * d <= a) by (nonlinear_arith)
                requires a == d * (a / d) + a % d && a % d >= 0;
        }
        if k * d <= a && k > a / d {
            assert(k * d >= (a / d + 1) * d) by (nonlinear_arith)
                requires k >= a / d + 1 && d > 0;
            assert((a / d + 1) * d > a) by (nonlinear_arith)
                requires a == d * (a / d) + a % d && a % d < d;
        }
    }
}

/// Energy over an in-range window is non-negative and at most full scale
/// per sample.
proof fn lemma_energy_bounds(s: Seq<i32>, start: int, m: int)
    requires
        samples_ok(s),
        0 <= start,
        m >= 0,
        start + m <= s.len(),
    ensures
        0 <= energy_partial(s, start, m) <= m * 0x40000000,
    decreases m,
{
    if m > 0 {
        lemma_energy_bounds(s, start, m - 1);
        let x = s[start + m - 1] as int;
        assert(0 <= x * x <= 0x40000000) by (nonlinear_arith)
            requires -32768 <= x <= 32768;
        assert((m - 1) * 0x40000000 + 0x40000000 == m * 0x40000000) by (nonlinear_arith);
    }
}

/// The energy of the `w` samples starting at `start`.
fn window_energy(samples: &Vec<i32>, start: usize, w: usize) -> (e: i64)
    requires
        samples_ok(samples@),
        start + w <= samples@.len(),
        w <= 65536,
    ensures
        e == energy_partial(samples@, start as int, w as int),
        0 <= e <= w * 0x40000000,
{
    let n = samples.len();
    let mut acc: i64 = 0;
    let mut j: usize = 0;
    while j < w
        invariant
            j <= w,
            w <= 65536,
            samples_ok(samples@),
            n == samples@.len(),
            start + w <= n,
            acc == energy_partial(samples@, start as int, j as int),
            0 <= acc <= j * 0x40000000,
        decreases w - j,
    {
        let x = samples[start + j];
        proof {
            assert(sample_ok(samples@[start + j] as int));
            assert(0 <= (x as int) * (x as int) <= 0x40000000) by (nonlinear_arith)
                requires -32768 <= x as int <= 32768;
            assert((j as int) * 0x40000000 + 0x40000000 == (j + 1) * 0x40000000) by (nonlinear_arith);
            assert((j + 1) * 0x40000000 <= 65536 * 0x40000000) by (nonlinear_arith)
                requires j + 1 <= 65536;
        }
        let term: i64 = (x as i64) * (x as i64);
        acc = acc + term;
        j = j + 1;
    }
    acc
}

/// A restartable scan over the stream's windows: remembers which window
/// comes next and whether the previous one was already loud, which is
/// what suppresses re-triggering.
pub struct OnsetScan {
    /// Index of the window the next call reports.
    pub next_window: usize,
    /// Whether the previous window's score was above the threshold.
    pub prev_above: bool,
}

impl OnsetScan {
    /// The scan state agrees with the stream it walks.
    pub open spec fn inv(self, s: Seq<i32>, cfg: AnalysisConfig) -> bool {
        &&& self.prev_above == (self.next_window > 0 && win_above(s, cfg, self.next_window - 1))
        &&& (self.next_window > 0 ==> window_fits(s.len() as int, cfg, self.next_window - 1))
    }

    /// A scan positioned before the first window. Restarting means making
    /// a fresh scan: the same stream then yields the same reports again.
    pub fn new() -> (r: OnsetScan)
        ensures
            r.next_window == 0,
            !r.prev_above,
    {
        OnsetScan { next_window: 0, prev_above: false }
    }

    /// Report the next window, or nothing once fewer than a full window
    /// of samples remains.
    pub fn next(&mut self, samples: &Vec<i32>, cfg: &AnalysisConfig) -> (r: Option<WindowReport>)
        requires
            cfg.wf(),
            samples_ok(samples@),
            samples@.len() + cfg.hop + cfg.window < usize::MAX,
            old(self).inv(samples@, *cfg),
        ensures
            final(self).inv(samples@, *cfg),
            window_fits(samples@.len() as int, *cfg, old(self).next_window as int) ==> {
                &&& r matches Some(w)
                &&& w.frame_index == old(self).next_window * cfg.hop
                &&& w.strength == win_energy(samples@, *cfg, old(self).next_window as int)
                &&& w.onset == win_onset(samples@, *cfg, old(self).next_window as int)
                &&& final(self).next_window == old(self).next_window + 1
            },
            !window_fits(samples@.len() as int, *cfg, old(self).next_window as int) ==> {
                &&& r is None
                &&& *final(self) == *old(self)
            },
    {
        let k = self.next_window;
        proof {
            if k > 0 {
                assert((k - 1) * cfg.hop + cfg.hop == k * cfg.hop) by (nonlinear_arith);
            } else {
                assert(k * cfg.hop == 0) by (nonlinear_arith)
                    requires k == 0;
            }
        }
        let pos = k * cfg.hop;
        if pos <= samples.len() && cfg.window <= samples.len() - pos {
            proof {
                assert(k <= k * cfg.hop) by (nonlinear_arith)
                    requires k >= 0 && cfg.hop >= 1;
            }
            let e = window_energy(samples, pos, cfg.window);
            let above = e > cfg.onset_threshold;
            let onset = above && e > cfg.silence_floor && !self.prev_above;
            self.prev_above = above;
            self.next_window = k + 1;
            Some(WindowReport { frame_index: pos, strength: e, onset })
        } else {
            None
        }
    }
}

/// Timestamps of frames within a day-long stream stay within range.
proof fn lemma_frame_time_bound(frame: int, len: int, rate: int)
    requires
        0 <= frame <= len,
        1 <= rate,
        len <= rate * 86400,
    ensures
        0 <= frame_ms(frame, rate) <= MAX_TIME_MS,
{
    assert(frame * 1000 <= rate * 86400000) by (nonlinear_arith)
        requires 0 <= frame && frame <= rate * 86400;
    lemma_multiply_divide_le(frame * 1000, rate, 86400000);
    assert(frame * 1000 >= 0) by (nonlinear_arith)
        requires frame >= 0;
    lemma_div_pos_is_pos(frame * 1000, rate);
}

/// Detect every onset in the stream: walk the windows in order and emit
/// each flagged window's timestamp. Two runs over the same stream give
/// the same result.
pub fn detect_onsets(samples: &Vec<i32>, sample_rate: u32, cfg: &AnalysisConfig) -> (r: Vec<i64>)
    requires
        cfg.wf(),
        sample_rate >= 1,
        samples_ok(samples@),
        samples@.len() + cfg.hop + cfg.window < usize::MAX,
        samples@.len() <= sample_rate * 86400,
    ensures
        r@ == spec_onset_times(samples@, *cfg, sample_rate as int),
        forall|i: int| 0 <= i < r@.len() ==> 0 <= #[trigger] r@[i] <= MAX_TIME_MS,
{
    let n = samples.len();
    let mut scan = OnsetScan::new();
    let mut out: Vec<i64> = Vec::new();
    loop
        invariant
            cfg.wf(),
            sample_rate >= 1,
            samples_ok(samples@),
            n == samples@.len(),
            samples@.len() + cfg.hop + cfg.window < usize::MAX,
            samples@.len() <= sample_rate * 86400,
            scan.inv(samples@, *cfg),
            scan.next_window <= spec_num_windows(n as int, *cfg),
            out@ == onset_times_upto(samples@, *cfg, sample_rate as int, scan.next_window as int),
            forall|i: int| 0 <= i < out@.len() ==> 0 <= #[trigger] out@[i] <= MAX_TIME_MS,
        ensures
            out@ == spec_onset_times(samples@, *cfg, sample_rate as int),
            forall|i: int| 0 <= i < out@.len() ==> 0 <= #[trigger] out@[i] <= MAX_TIME_MS,
        decreases spec_num_windows(n as int, *cfg) - scan.next_window,
    {
        let ghost k = scan.next_window as int;
        proof {
            lemma_fits_iff(n as int, *cfg, k);
        }
        match scan.next(samples, cfg) {
            Some(w) => {
                if w.onset {
                    proof {
                        assert(k * cfg.hop + cfg.window <= n);
                        assert(k * cfg.hop >= 0) by (nonlinear_arith)
                            requires k >= 0 && cfg.hop >= 0;
                        lemma_frame_time_bound(
                            k * cfg.hop,
                            n as int,
                            sample_rate as int,
                        );
                        assert((k * cfg.hop) * 1000 <= (sample_rate as int) * 86400000)
                            by (nonlinear_arith)
                            requires 0 <= k * cfg.hop <= (sample_rate as int) * 86400;
                        assert((sample_rate as int) * 86400000 < 0x8000000000000000)
                            by (nonlinear_arith)
                            requires sample_rate <= 0xffffffffu32;
                    }
                    let t: i64 = (((w.frame_index as u64) * 1000) / (sample_rate as u64)) as i64;
                    out.push(t);
                }
            },
            None => {
                break;
            },
        }
    }
    out
}

/// A pure-silence stream yields no onsets: every window's energy is zero,
/// which never exceeds a non-negative threshold.
pub proof fn lemma_silence_no_onsets(s: Seq<i32>, cfg: AnalysisConfig, rate: int)
    requires
        cfg.wf(),
        forall|i: int| 0 <= i < s.len() ==> s[i] == 0,
    ensures
        spec_onset_times(s, cfg, rate) == Seq::<i64>::empty(),
{
    let num = spec_num_windows(s.len() as int, cfg);
    lemma_silence_upto(s, cfg, rate, num);
}

proof fn lemma_silence_upto(s: Seq<i32>, cfg: AnalysisConfig, rate: int, k: int)
    requires
        cfg.wf(),
        forall|i: int| 0 <= i < s.len() ==> s[i] == 0,
        k <= spec_num_windows(s.len() as int, cfg),
    ensures
        onset_times_upto(s, cfg, rate, k) == Seq::<i64>::empty(),
    decreases k,
{
    if k > 0 {
        lemma_silence_upto(s, cfg, rate, k - 1);
        lemma_fits_iff(s.len() as int, cfg, k - 1);
        lemma_zero_energy(s, cfg, (k - 1) * cfg.hop, cfg.window as int);
        assert(!win_onset(s, cfg, k - 1));
        assert(onset_times_upto(s, cfg, rate, k) =~= Seq::<i64>::empty());
    }
}

proof fn lemma_zero_energy(s: Seq<i32>, cfg: AnalysisConfig, start: int, m: int)
    requires
        forall|i: int| 0 <= i < s.len() ==> s[i] == 0,
        0 <= start,
        start + m <= s.len(),
    ensures
        energy_partial(s, start, m) == 0,
    decreases m,
{
    if m > 0 {
        lemma_zero_energy(s, cfg, start, m - 1);
    }
}

/// Detection is deterministic: identical streams, rates and tunings give
/// identical onset sequences, however often the scan is re-run.
pub proof fn lemma_detection_deterministic(
    a: Seq<i32>,
    b: Seq<i32>,
    cfg: AnalysisConfig,
    rate: int,
)
    requires
        a == b,
    ensures
        spec_onset_times(a, cfg, rate) == spec_onset_times(b, cfg, rate),
{
}

/// Onset timestamps come out in non-decreasing order, and each lies
/// within the stream's duration.
pub proof fn lemma_onset_times_sorted(s: Seq<i32>, cfg: AnalysisConfig, rate: int)
    requires
        cfg.wf(),
        rate >= 1,
        s.len() <= rate * 86400,
    ensures
        sorted(spec_onset_times(s, cfg, rate)),
{
    let num = spec_num_windows(s.len() as int, cfg);
    if num > 0 {
        lemma_fits_iff(s.len() as int, cfg, num - 1);
    }
    lemma_sorted_upto(s, cfg, rate, num);
}

proof fn lemma_sorted_upto(s: Seq<i32>, cfg: AnalysisConfig, rate: int, k: int)
    requires
        cfg.wf(),
        rate >= 1,
        s.len() <= rate * 86400,
        0 <= k <= spec_num_windows(s.len() as int, cfg),
    ensures
        sorted(onset_times_upto(s, cfg, rate, k)),
        forall|i: int| 0 <= i < onset_times_upto(s, cfg, rate, k).len()
            ==> 0 <= #[trigger] onset_times_upto(s, cfg, rate, k)[i]
                <= frame_ms((k - 1) * cfg.hop, rate),
    decreases k,
{
    if k > 0 {
        lemma_sorted_upto(s, cfg, rate, k - 1);
        let prev = onset_times_upto(s, cfg, rate, k - 1);
        let cur = onset_times_upto(s, cfg, rate, k);
        lemma_fits_iff(s.len() as int, cfg, k - 1);
        assert(0 <= (k - 1) * cfg.hop <= s.len()) by (nonlinear_arith)
            requires
                k >= 1,
                cfg.hop >= 1,
                cfg.window >= 0,
                (k - 1) * cfg.hop + cfg.window <= s.len(),
        ;
        lemma_frame_time_bound((k - 1) * cfg.hop, s.len() as int, rate);
        if k >= 2 {
            assert((k - 2) * cfg.hop * 1000 <= (k - 1) * cfg.hop * 1000) by (nonlinear_arith)
                requires cfg.hop >= 0 && k >= 2;
            lemma_div_is_ordered((k - 2) * cfg.hop * 1000, (k - 1) * cfg.hop * 1000, rate);
        }
        if win_onset(s, cfg, k - 1) {
            let t = frame_ms((k - 1) * cfg.hop, rate);
            assert(t as i64 == t);
            assert(cur == prev + seq![t as i64]);
            assert(forall|i: int| 0 <= i < prev.len() ==> #[trigger] cur[i] == prev[i]);
            assert(cur[cur.len() - 1] == t as i64);
        } else {
            assert(cur == prev);
        }
    }
}

} // verus!
