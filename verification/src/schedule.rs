//! Target scheduler: one target per accepted beat. The target's spawn
//! time leads its ideal hit time by the shrink duration, both shifted by
//! the session delay that aligns the first target with the end of the
//! countdown. Positions are drawn at random inside a disc around the
//! screen centre: a uniform direction and a uniform distance below the
//! spawn radius.

use vstd::prelude::*;
use vstd::arithmetic::div_mod::{lemma_fundamental_div_mod, lemma_multiply_divide_le};
use crate::config::{COORD_LIMIT, MAX_TIME_MS, RADIUS_LIMIT, TARGET_MAX_RADIUS};
use crate::debounce::times_ok;
use crate::target::{dist_sq, targets_wf, Target, TargetState};

verus! {

/// Number of directions a target's offset may take.
pub const DIR_COUNT: u64 = 16;

/// Fixed-point scale of the direction table entries.
pub const DIR_SCALE: i64 = 1000;

/// Relies on rand::random_range over an integer range: returns a value
/// drawn uniformly from the half-open range, so the result is always
/// below the bound. Draws are independent; nothing further is promised
/// of which value comes back.
#[verifier::external_body]
fn draw_below(bound: u64) -> (r: u64)
    requires
        bound > 0,
    ensures
        r < bound,
{
    rand::random_range(0..bound)
}

/// A unit vector for direction `dir`, in fixed point: both components
/// within the scale, and their squared length at most the scale squared.
fn direction_vector(dir: u64) -> (r: (i64, i64))
    requires
        dir < DIR_COUNT,
    ensures
        -DIR_SCALE <= r.0 <= DIR_SCALE,
        -DIR_SCALE <= r.1 <= DIR_SCALE,
        r.0 * r.0 + r.1 * r.1 <= DIR_SCALE * DIR_SCALE,
{
    if dir == 0 {
        return (1000, 0);
    }
    if dir == 1 {
        return (923, 382);
    }
    if dir == 2 {
        return (707, 707);
    }
    if dir == 3 {
        return (382, 923);
    }
    if dir == 4 {
        return (0, 1000);
    }
    if dir == 5 {
        return (-382, 923);
    }
    if dir == 6 {
        return (-707, 707);
    }
    if dir == 7 {
        return (-923, 382);
    }
    if dir == 8 {
        return (-1000, 0);
    }
    if dir == 9 {
        return (-923, -382);
    }
    if dir == 10 {
        return (-707, -707);
    }
    if dir == 11 {
        return (-382, -923);
    }
    if dir == 12 {
        return (0, -1000);
    }
    if dir == 13 {
        return (382, -923);
    }
    if dir == 14 {
        return (707, -707);
    }
    (923, -382)
}

/// A distance scaled by one fixed-point direction component, rounded
/// toward zero.
pub open spec fn spec_scaled(d: int, c: int) -> int {
    if c >= 0 {
        (d * c) / (DIR_SCALE as int)
    } else {
        -((d * (-c)) / (DIR_SCALE as int))
    }
}

/// The scaled offset never exceeds the distance, and its square scaled
/// up stays below the exact product's square.
proof fn lemma_scaled_sq(d: int, c: int)
    requires
        0 <= d,
        -DIR_SCALE <= c <= DIR_SCALE,
    ensures
        -d <= spec_scaled(d, c) <= d,
        spec_scaled(d, c) * spec_scaled(d, c) * (DIR_SCALE * DIR_SCALE) <= (d * d) * (c * c),
{
    let sc = DIR_SCALE as int;
    let a = if c >= 0 { c } else { -c };
    let q = (d * a) / sc;
    lemma_fundamental_div_mod(d * a, sc);
    assert(d * a >= 0) by (nonlinear_arith)
        requires d >= 0 && a >= 0;
    assert(d * a <= sc * d) by (nonlinear_arith)
        requires 0 <= d && 0 <= a <= sc;
    lemma_multiply_divide_le(d * a, sc, d);
    assert(q >= 0) by (nonlinear_arith)
        requires d * a == sc * q + (d * a) % sc, 0 <= (d * a) % sc < sc, d * a >= 0, sc > 0;
    assert(q * sc <= d * a) by (nonlinear_arith)
        requires d * a == sc * q + (d * a) % sc, 0 <= (d * a) % sc;
    assert(q * q * (sc * sc) <= (d * d) * (a * a)) by (nonlinear_arith)
        requires 0 <= q * sc <= d * a;
    assert(a * a == c * c) by (nonlinear_arith)
        requires a == c || a == -c;
    if c >= 0 {
        assert(spec_scaled(d, c) == q);
    } else {
        assert(spec_scaled(d, c) == -q);
        assert((-q) * (-q) == q * q) by (nonlinear_arith);
    }
}

/// An offset scaled from a direction of bounded squared length stays
/// inside the disc of radius `d`.
proof fn lemma_offset_in_disc(d: int, c: int, s: int)
    requires
        0 <= d,
        -DIR_SCALE <= c <= DIR_SCALE,
        -DIR_SCALE <= s <= DIR_SCALE,
        c * c + s * s <= DIR_SCALE * DIR_SCALE,
    ensures
        spec_scaled(d, c) * spec_scaled(d, c) + spec_scaled(d, s) * spec_scaled(d, s) <= d * d,
{
    let sc = DIR_SCALE as int;
    let mx = spec_scaled(d, c);
    let my = spec_scaled(d, s);
    lemma_scaled_sq(d, c);
    lemma_scaled_sq(d, s);
    assert((d * d) * (c * c) + (d * d) * (s * s) <= (d * d) * (sc * sc)) by (nonlinear_arith)
        requires c * c + s * s <= sc * sc && d * d >= 0;
    assert((mx * mx + my * my) * (sc * sc) <= (d * d) * (sc * sc));
    assert(mx * mx + my * my <= d * d) by (nonlinear_arith)
        requires (mx * mx + my * my) * (sc * sc) <= (d * d) * (sc * sc) && sc * sc > 0;
}

/// Compute the offset a direction component gives at distance `d`.
fn scaled_offset(d: i64, c: i64) -> (r: i64)
    requires
        0 <= d <= RADIUS_LIMIT,
        -DIR_SCALE <= c <= DIR_SCALE,
    ensures
        r == spec_scaled(d as int, c as int),
        -d <= r <= d,
{
    proof {
        lemma_scaled_sq(d as int, c as int);
        assert(0 <= d * (if c >= 0 { c as int } else { -c as int }) <= RADIUS_LIMIT * DIR_SCALE)
            by (nonlinear_arith)
            requires
                0 <= d <= RADIUS_LIMIT,
                -DIR_SCALE <= c <= DIR_SCALE,
        ;
    }
    if c >= 0 {
        (((d * c) as u64) / (DIR_SCALE as u64)) as i64
    } else {
        -((((d * (-c)) as u64) / (DIR_SCALE as u64)) as i64)
    }
}

/// Schedule one target per beat: `spawn_time = beat - shrink + delay`,
/// `hit_time = beat + delay`, position drawn inside the spawn disc, full
/// radius, pending. Beats in non-decreasing order give targets in
/// non-decreasing spawn order.
pub fn schedule_targets(
    beats: &Vec<i64>,
    spawn_radius: i64,
    center_x: i64,
    center_y: i64,
    shrink_ms: i64,
    delay_ms: i64,
) -> (r: Vec<Target>)
    requires
        1 <= spawn_radius <= RADIUS_LIMIT,
        -COORD_LIMIT <= center_x <= COORD_LIMIT,
        -COORD_LIMIT <= center_y <= COORD_LIMIT,
        1 <= shrink_ms <= MAX_TIME_MS,
        0 <= delay_ms <= MAX_TIME_MS,
        times_ok(beats@),
    ensures
        r@.len() == beats@.len(),
        targets_wf(r@, shrink_ms as int),
        forall|i: int| 0 <= i < r@.len() ==> {
            let t = #[trigger] r@[i];
            &&& t.spawn_time_ms == beats@[i] - shrink_ms + delay_ms
            &&& t.hit_time_ms == beats@[i] + delay_ms
            &&& t.max_radius == TARGET_MAX_RADIUS
            &&& t.state is Pending
            &&& dist_sq(t.x as int, t.y as int, center_x as int, center_y as int)
                < spawn_radius * spawn_radius
        },
{
    let n = beats.len();
    let mut out: Vec<Target> = Vec::new();
    let mut i: usize = 0;
    while i < n
        invariant
            i <= n,
            n == beats@.len(),
            1 <= spawn_radius <= RADIUS_LIMIT,
            -COORD_LIMIT <= center_x <= COORD_LIMIT,
            -COORD_LIMIT <= center_y <= COORD_LIMIT,
            1 <= shrink_ms <= MAX_TIME_MS,
            0 <= delay_ms <= MAX_TIME_MS,
            times_ok(beats@),
            out@.len() == i,
            targets_wf(out@, shrink_ms as int),
            forall|j: int| 0 <= j < i ==> {
                let t = #[trigger] out@[j];
                &&& t.spawn_time_ms == beats@[j] - shrink_ms + delay_ms
                &&& t.hit_time_ms == beats@[j] + delay_ms
                &&& t.max_radius == TARGET_MAX_RADIUS
                &&& t.state is Pending
                &&& dist_sq(t.x as int, t.y as int, center_x as int, center_y as int)
                    < spawn_radius * spawn_radius
            },
        decreases n - i,
    {
        let beat = beats[i];
        let d = draw_below(spawn_radius as u64) as i64;
        let dir = draw_below(DIR_COUNT);
        let (c, s) = direction_vector(dir);
        let dx = scaled_offset(d, c);
        let dy = scaled_offset(d, s);
        proof {
            lemma_offset_in_disc(d as int, c as int, s as int);
            assert(d * d < spawn_radius * spawn_radius) by (nonlinear_arith)
                requires 0 <= d < spawn_radius;
        }
        let t = Target {
            x: center_x + dx,
            y: center_y + dy,
            spawn_time_ms: beat - shrink_ms + delay_ms,
            hit_time_ms: beat + delay_ms,
            max_radius: TARGET_MAX_RADIUS,
            state: TargetState::Pending,
        };
        out.push(t);
        i = i + 1;
    }
    out
}

/// Scheduled targets inherit the beats' order: when the beat sequence is
/// non-decreasing, so are the spawn times (and the hit times) of the
/// targets scheduled from it.
pub proof fn lemma_scheduled_spawns_ordered(
    targets: Seq<Target>,
    beats: Seq<i64>,
    shrink_ms: int,
    delay_ms: int,
)
    requires
        targets.len() == beats.len(),
        forall|i: int| 0 <= i < targets.len()
            ==> (#[trigger] targets[i]).spawn_time_ms == beats[i] - shrink_ms + delay_ms
                && targets[i].hit_time_ms == beats[i] + delay_ms,
        forall|i: int, j: int| 0 <= i <= j < beats.len() ==> beats[i] <= beats[j],
    ensures
        forall|i: int, j: int| 0 <= i <= j < targets.len()
            ==> (#[trigger] targets[i]).spawn_time_ms <= (#[trigger] targets[j]).spawn_time_ms,
        forall|i: int, j: int| 0 <= i <= j < targets.len()
            ==> (#[trigger] targets[i]).hit_time_ms <= (#[trigger] targets[j]).hit_time_ms,
{
}

} // verus!
