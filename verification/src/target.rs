//! Target lifecycle and judge: each target is pending until its spawn
//! time, shrinks linearly while active, is hit by a pointer press inside
//! its current radius, and is missed once its window has passed. Hit and
//! Missed are terminal. At most one target is hit per trigger press: the
//! first eligible one in vector order, which the scheduler fills in
//! ascending spawn time.

use vstd::prelude::*;
use vstd::arithmetic::div_mod::{lemma_div_pos_is_pos, lemma_multiply_divide_le};
use crate::config::{
    ANNOTATION_DURATION_MS, COORD_LIMIT, MAX_TIME_MS, RADIUS_LIMIT,
};

verus! {

/// Where a target stands in its life.
#[derive(Clone, Copy, Debug, PartialEq, Eq, Structural)]
pub enum TargetState {
    /// Scheduled, not yet on screen.
    Pending,
    /// On screen and hittable.
    Active,
    /// Hit by the player; terminal.
    Hit,
    /// Never hit and its window has passed; terminal.
    Missed,
}

/// One scheduled hit-object.
#[derive(Clone, Copy, Debug, PartialEq, Eq, Structural)]
pub struct Target {
    /// Centre of the target on screen.
    pub x: i64,
    pub y: i64,
    /// When the target appears, in ms from play start.
    pub spawn_time_ms: i64,
    /// The ideal hit moment: when the radius reaches zero.
    pub hit_time_ms: i64,
    /// Radius at the moment of spawning.
    pub max_radius: i64,
    pub state: TargetState,
}

/// The elapsed-time clock stays within one session's range.
pub open spec fn elapsed_ok(e: int) -> bool {
    0 <= e <= 4 * MAX_TIME_MS
}

/// A pointer coordinate within the range the core handles.
pub open spec fn coord_ok(c: int) -> bool {
    -2 * COORD_LIMIT <= c <= 2 * COORD_LIMIT
}

impl Target {
    /// The invariant every scheduled target keeps: its hit time is its
    /// spawn time plus the session's shrink duration, its radius is
    /// positive, and its numbers stay in range.
    pub open spec fn wf(self, shrink_ms: int) -> bool {
        &&& 1 <= shrink_ms <= MAX_TIME_MS
        &&& self.hit_time_ms - self.spawn_time_ms == shrink_ms
        &&& 0 < self.max_radius <= RADIUS_LIMIT
        &&& coord_ok(self.x as int)
        &&& coord_ok(self.y as int)
        &&& -MAX_TIME_MS <= self.spawn_time_ms <= 2 * MAX_TIME_MS
    }

    /// Hit and Missed are the two terminal states.
    pub open spec fn terminal(self) -> bool {
        self.state is Hit || self.state is Missed
    }
}

/// Every target of a set is well formed for the session's shrink time.
pub open spec fn targets_wf(s: Seq<Target>, shrink_ms: int) -> bool {
    forall|i: int| 0 <= i < s.len() ==> (#[trigger] s[i]).wf(shrink_ms)
}

/// The target's window of interactivity: from spawn until the radius
/// reaches zero.
pub open spec fn in_window(t: Target, elapsed: int, shrink_ms: int) -> bool {
    t.spawn_time_ms <= elapsed <= t.spawn_time_ms + shrink_ms
}

/// The radius at `elapsed`: the full radius scaled linearly down over the
/// shrink duration.
pub open spec fn spec_radius(t: Target, elapsed: int, shrink_ms: int) -> int {
    t.max_radius * (t.spawn_time_ms + shrink_ms - elapsed) / shrink_ms
}

/// The current radius of a target, or nothing outside its window.
pub fn current_radius(t: &Target, elapsed: i64, shrink_ms: i64) -> (r: Option<i64>)
    requires
        t.wf(shrink_ms as int),
        elapsed_ok(elapsed as int),
    ensures
        r is Some <==> in_window(*t, elapsed as int, shrink_ms as int),
        r matches Some(v) ==> v == spec_radius(*t, elapsed as int, shrink_ms as int)
            && 0 <= v <= t.max_radius,
{
    if elapsed >= t.spawn_time_ms && elapsed <= t.spawn_time_ms + shrink_ms {
        let remaining = t.spawn_time_ms + shrink_ms - elapsed;
        proof {
            assert(0 <= t.max_radius * remaining <= RADIUS_LIMIT * MAX_TIME_MS)
                by (nonlinear_arith)
                requires
                    0 <= remaining <= MAX_TIME_MS,
                    0 < t.max_radius <= RADIUS_LIMIT,
            ;
            assert(t.max_radius * remaining <= shrink_ms * t.max_radius)
                by (nonlinear_arith)
                requires
                    0 <= remaining <= shrink_ms,
                    0 < t.max_radius,
            ;
            lemma_multiply_divide_le(
                t.max_radius * remaining,
                shrink_ms as int,
                t.max_radius as int,
            );
            lemma_div_pos_is_pos(t.max_radius * remaining, shrink_ms as int);
        }
        let num = t.max_radius * remaining;
        Some(((num as u64) / (shrink_ms as u64)) as i64)
    } else {
        None
    }
}

/// The points awarded for a hit at `current_time_ms` against the ideal
/// `hit_time_ms`: 300 within a tenth of a second, 100 within three
/// tenths, 50 beyond that.
pub open spec fn spec_judge_score(hit_time_ms: int, current_time_ms: int) -> int {
    let d = if current_time_ms >= hit_time_ms {
        current_time_ms - hit_time_ms
    } else {
        hit_time_ms - current_time_ms
    };
    if d < 100 {
        300
    } else if d < 300 {
        100
    } else {
        50
    }
}

/// Score one hit by how far it landed from the ideal hit time.
pub fn judge_score(hit_time_ms: i64, current_time_ms: i64) -> (points: i64)
    requires
        -2 * MAX_TIME_MS <= hit_time_ms <= 4 * MAX_TIME_MS,
        -2 * MAX_TIME_MS <= current_time_ms <= 4 * MAX_TIME_MS,
    ensures
        points == spec_judge_score(hit_time_ms as int, current_time_ms as int),
        50 <= points <= 300,
{
    let d = if current_time_ms >= hit_time_ms {
        current_time_ms - hit_time_ms
    } else {
        hit_time_ms - current_time_ms
    };
    if d < 100 {
        300
    } else if d < 300 {
        100
    } else {
        50
    }
}

/// Squared distance between two points.
pub open spec fn dist_sq(ax: int, ay: int, bx: int, by: int) -> int {
    (ax - bx) * (ax - bx) + (ay - by) * (ay - by)
}

/// A target the current press may hit: active, inside its window, and
/// the pointer within its current (shrinking) radius.
pub open spec fn eligible(t: Target, elapsed: int, px: int, py: int, shrink_ms: int) -> bool {
    &&& t.state is Active
    &&& in_window(t, elapsed, shrink_ms)
    &&& dist_sq(px, py, t.x as int, t.y as int)
        < spec_radius(t, elapsed, shrink_ms) * spec_radius(t, elapsed, shrink_ms)
}

/// Whether the press at `(px, py)` hits this target right now.
pub fn target_hittable(t: &Target, elapsed: i64, px: i64, py: i64, shrink_ms: i64) -> (b: bool)
    requires
        t.wf(shrink_ms as int),
        elapsed_ok(elapsed as int),
        coord_ok(px as int),
        coord_ok(py as int),
    ensures
        b == eligible(*t, elapsed as int, px as int, py as int, shrink_ms as int),
{
    if !matches!(t.state, TargetState::Active) {
        return false;
    }
    match current_radius(t, elapsed, shrink_ms) {
        None => false,
        Some(radius) => {
            let dx = px - t.x;
            let dy = py - t.y;
            proof {
                assert(dx * dx + dy * dy <= 0x80000000000000 && dx * dx >= 0 && dy * dy >= 0)
                    by (nonlinear_arith)
                    requires
                        -4 * COORD_LIMIT <= dx <= 4 * COORD_LIMIT,
                        -4 * COORD_LIMIT <= dy <= 4 * COORD_LIMIT,
                ;
                assert(0 <= radius * radius <= RADIUS_LIMIT * RADIUS_LIMIT)
                    by (nonlinear_arith)
                    requires 0 <= radius <= RADIUS_LIMIT,
                ;
            }
            dx * dx + dy * dy < radius * radius
        },
    }
}

/// The first eligible target at or after position `i`, in vector order.
pub open spec fn first_eligible_from(
    s: Seq<Target>,
    elapsed: int,
    px: int,
    py: int,
    shrink_ms: int,
    i: int,
) -> Option<int>
    decreases s.len() - i,
{
    if i < 0 || i >= s.len() {
        None
    } else if eligible(s[i], elapsed, px, py, shrink_ms) {
        Some(i)
    } else {
        first_eligible_from(s, elapsed, px, py, shrink_ms, i + 1)
    }
}

/// The target a press at this instant hits, if any: the first eligible
/// one in vector order.
pub open spec fn spec_first_eligible(
    s: Seq<Target>,
    elapsed: int,
    px: int,
    py: int,
    shrink_ms: int,
) -> Option<int> {
    first_eligible_from(s, elapsed, px, py, shrink_ms, 0)
}

/// The target after being hit.
pub open spec fn mark_hit(t: Target) -> Target {
    Target { state: TargetState::Hit, ..t }
}

/// Judge one frame's input: if the trigger is pressed, hit the first
/// eligible target, award its points, and leave every other target
/// untouched — one press never scores twice. The score never decreases.
pub fn judge_hits(
    targets: &mut Vec<Target>,
    elapsed: i64,
    px: i64,
    py: i64,
    trigger: bool,
    shrink_ms: i64,
    score: &mut i64,
) -> (hit: Option<usize>)
    requires
        targets_wf(old(targets)@, shrink_ms as int),
        elapsed_ok(elapsed as int),
        coord_ok(px as int),
        coord_ok(py as int),
        0 <= *old(score) <= i64::MAX - 300,
    ensures
        final(targets)@.len() == old(targets)@.len(),
        targets_wf(final(targets)@, shrink_ms as int),
        *final(score) >= *old(score),
        !trigger ==> final(targets)@ == old(targets)@ && *final(score) == *old(score)
            && hit is None,
        trigger ==> match spec_first_eligible(
            old(targets)@, elapsed as int, px as int, py as int, shrink_ms as int,
        ) {
            Some(i) => {
                &&& hit matches Some(h) && h as int == i
                &&& final(targets)@ == old(targets)@.update(i, mark_hit(old(targets)@[i]))
                &&& *final(score) == *old(score)
                    + spec_judge_score(old(targets)@[i].hit_time_ms as int, elapsed as int)
            },
            None => final(targets)@ == old(targets)@ && *final(score) == *old(score)
                && hit is None,
        },
{
    if !trigger {
        return None;
    }
    let ghost s0 = targets@;
    let n = targets.len();
    let mut k: usize = 0;
    while k < n
        invariant
            k <= n,
            n == targets@.len(),
            trigger,
            s0 == old(targets)@,
            targets@ == s0,
            *score == *old(score),
            targets_wf(s0, shrink_ms as int),
            elapsed_ok(elapsed as int),
            coord_ok(px as int),
            coord_ok(py as int),
            0 <= *score <= i64::MAX - 300,
            spec_first_eligible(s0, elapsed as int, px as int, py as int, shrink_ms as int)
                == first_eligible_from(
                    s0, elapsed as int, px as int, py as int, shrink_ms as int, k as int,
                ),
        decreases n - k,
    {
        let t = targets[k];
        proof {
            assert(s0[k as int].wf(shrink_ms as int));
        }
        if target_hittable(&t, elapsed, px, py, shrink_ms) {
            proof {
                assert(first_eligible_from(
                    s0, elapsed as int, px as int, py as int, shrink_ms as int, k as int,
                ) == Some(k as int));
            }
            let points = judge_score(t.hit_time_ms, elapsed);
            *score = *score + points;
            let mut hit_t = t;
            hit_t.state = TargetState::Hit;
            targets.set(k, hit_t);
            proof {
                assert(hit_t == mark_hit(s0[k as int]));
                assert(targets@ == s0.update(k as int, mark_hit(s0[k as int])));
                assert forall|i: int| 0 <= i < targets@.len()
                    implies (#[trigger] targets@[i]).wf(shrink_ms as int) by {
                    assert(s0[i].wf(shrink_ms as int));
                }
            }
            return Some(k);
        }
        proof {
            assert(first_eligible_from(
                s0, elapsed as int, px as int, py as int, shrink_ms as int, k as int,
            ) == first_eligible_from(
                s0, elapsed as int, px as int, py as int, shrink_ms as int, k as int + 1,
            ));
        }
        k = k + 1;
    }
    None
}

/// What a single frame step does to one target: a terminal target stays
/// as it is; one past its window is missed; a pending one whose spawn
/// time has come activates.
pub open spec fn spec_advance_target(t: Target, elapsed: int, shrink_ms: int) -> Target {
    if t.terminal() {
        t
    } else if elapsed > t.spawn_time_ms + shrink_ms {
        Target { state: TargetState::Missed, ..t }
    } else if t.state is Pending && elapsed >= t.spawn_time_ms {
        Target { state: TargetState::Active, ..t }
    } else {
        t
    }
}

/// This frame turns the target from live to missed.
pub open spec fn newly_missed(t: Target, elapsed: int, shrink_ms: int) -> bool {
    !t.terminal() && elapsed > t.spawn_time_ms + shrink_ms
}

/// The kind of transient feedback shown to the player.
#[derive(Clone, Copy, Debug, PartialEq, Eq, Structural)]
pub enum FeedbackKind {
    /// A target expired without being hit.
    Miss,
}

impl FeedbackKind {
    /// The text shown for this feedback.
    pub fn label(&self) -> (r: &'static str)
        ensures
            r@ == "Miss"@,
    {
        "Miss"
    }
}

/// A transient on-screen annotation with its own display countdown,
/// independent of any target's lifecycle.
#[derive(Clone, Copy, Debug, PartialEq, Eq, Structural)]
pub struct Annotation {
    pub kind: FeedbackKind,
    /// Where the annotation is anchored.
    pub x: i64,
    pub y: i64,
    /// When it appeared, in ms of session time.
    pub spawn_time_ms: i64,
    /// How long it stays, in ms.
    pub duration_ms: i64,
}

/// The annotation a missed target leaves behind.
pub open spec fn miss_note(t: Target, elapsed: int) -> Annotation {
    Annotation {
        kind: FeedbackKind::Miss,
        x: t.x,
        y: t.y,
        spawn_time_ms: elapsed as i64,
        duration_ms: ANNOTATION_DURATION_MS,
    }
}

/// The miss annotations the first `i` targets emit this frame, in order.
pub open spec fn miss_notes_upto(s: Seq<Target>, elapsed: int, shrink_ms: int, i: int) -> Seq<
    Annotation,
>
    decreases i,
{
    if i <= 0 {
        Seq::empty()
    } else if newly_missed(s[i - 1], elapsed, shrink_ms) {
        miss_notes_upto(s, elapsed, shrink_ms, i - 1) + seq![miss_note(s[i - 1], elapsed)]
    } else {
        miss_notes_upto(s, elapsed, shrink_ms, i - 1)
    }
}

/// Every miss annotation the set emits this frame.
pub open spec fn spec_miss_notes(s: Seq<Target>, elapsed: int, shrink_ms: int) -> Seq<Annotation> {
    miss_notes_upto(s, elapsed, shrink_ms, s.len() as int)
}

/// Advance every target one frame: activate the pending ones whose time
/// has come, miss the live ones whose window has passed, and append one
/// miss annotation per newly missed target. Terminal targets never
/// change.
pub fn advance_targets(
    targets: &mut Vec<Target>,
    elapsed: i64,
    shrink_ms: i64,
    notes: &mut Vec<Annotation>,
)
    requires
        targets_wf(old(targets)@, shrink_ms as int),
        elapsed_ok(elapsed as int),
    ensures
        final(targets)@.len() == old(targets)@.len(),
        targets_wf(final(targets)@, shrink_ms as int),
        forall|i: int| 0 <= i < old(targets)@.len()
            ==> final(targets)@[i]
                == spec_advance_target(#[trigger] old(targets)@[i], elapsed as int, shrink_ms as int),
        final(notes)@ == old(notes)@
            + spec_miss_notes(old(targets)@, elapsed as int, shrink_ms as int),
{
    let ghost s0 = targets@;
    let ghost notes0 = notes@;
    let n = targets.len();
    let mut k: usize = 0;
    while k < n
        invariant
            k <= n,
            n == s0.len(),
            s0 == old(targets)@,
            notes0 == old(notes)@,
            targets@.len() == s0.len(),
            targets_wf(s0, shrink_ms as int),
            elapsed_ok(elapsed as int),
            forall|i: int| 0 <= i < k
                ==> targets@[i]
                    == spec_advance_target(#[trigger] s0[i], elapsed as int, shrink_ms as int),
            forall|i: int| k <= i < n ==> targets@[i] == #[trigger] s0[i],
            notes@ == notes0 + miss_notes_upto(s0, elapsed as int, shrink_ms as int, k as int),
        decreases n - k,
    {
        let t = targets[k];
        proof {
            assert(s0[k as int].wf(shrink_ms as int));
        }
        let terminal = matches!(t.state, TargetState::Hit | TargetState::Missed);
        if !terminal && elapsed > t.spawn_time_ms + shrink_ms {
            let mut missed_t = t;
            missed_t.state = TargetState::Missed;
            targets.set(k, missed_t);
            notes.push(Annotation {
                kind: FeedbackKind::Miss,
                x: t.x,
                y: t.y,
                spawn_time_ms: elapsed,
                duration_ms: ANNOTATION_DURATION_MS,
            });
            proof {
                assert(notes@ =~= notes0
                    + miss_notes_upto(s0, elapsed as int, shrink_ms as int, k as int + 1));
            }
        } else if !terminal && matches!(t.state, TargetState::Pending)
            && elapsed >= t.spawn_time_ms {
            let mut active_t = t;
            active_t.state = TargetState::Active;
            targets.set(k, active_t);
            proof {
                assert(notes@ =~= notes0
                    + miss_notes_upto(s0, elapsed as int, shrink_ms as int, k as int + 1));
            }
        } else {
            proof {
                assert(notes@ =~= notes0
                    + miss_notes_upto(s0, elapsed as int, shrink_ms as int, k as int + 1));
            }
        }
        k = k + 1;
    }
    proof {
        assert forall|i: int| 0 <= i < targets@.len()
            implies (#[trigger] targets@[i]).wf(shrink_ms as int) by {
            assert(s0[i].wf(shrink_ms as int));
            assert(targets@[i] == spec_advance_target(s0[i], elapsed as int, shrink_ms as int));
        }
    }
}

/// An annotation's numbers stay in range.
pub open spec fn note_wf(n: Annotation) -> bool {
    &&& -MAX_TIME_MS <= n.spawn_time_ms <= 4 * MAX_TIME_MS
    &&& 0 <= n.duration_ms <= MAX_TIME_MS
}

/// Every annotation of a set is in range.
pub open spec fn notes_wf(s: Seq<Annotation>) -> bool {
    forall|i: int| 0 <= i < s.len() ==> note_wf(#[trigger] s[i])
}

/// An annotation still on display at `elapsed`.
pub open spec fn live_note(n: Annotation, elapsed: int) -> bool {
    elapsed - n.spawn_time_ms < n.duration_ms
}

/// The still-displayed annotations among the first `i`, in order.
pub open spec fn live_notes_upto(s: Seq<Annotation>, elapsed: int, i: int) -> Seq<Annotation>
    decreases i,
{
    if i <= 0 {
        Seq::empty()
    } else if live_note(s[i - 1], elapsed) {
        live_notes_upto(s, elapsed, i - 1) + seq![s[i - 1]]
    } else {
        live_notes_upto(s, elapsed, i - 1)
    }
}

/// The annotations still on display at `elapsed`, in their original order.
pub open spec fn spec_live_notes(s: Seq<Annotation>, elapsed: int) -> Seq<Annotation> {
    live_notes_upto(s, elapsed, s.len() as int)
}

/// Drop every annotation whose display countdown has run out.
pub fn prune_annotations(notes: &mut Vec<Annotation>, elapsed: i64)
    requires
        notes_wf(old(notes)@),
        elapsed_ok(elapsed as int),
    ensures
        final(notes)@ == spec_live_notes(old(notes)@, elapsed as int),
        notes_wf(final(notes)@),
{
    let ghost s0 = notes@;
    let n = notes.len();
    let mut kept: Vec<Annotation> = Vec::new();
    let mut j: usize = 0;
    while j < n
        invariant
            j <= n,
            n == s0.len(),
            s0 == old(notes)@,
            notes@ == s0,
            notes_wf(s0),
            elapsed_ok(elapsed as int),
            kept@ == live_notes_upto(s0, elapsed as int, j as int),
            notes_wf(kept@),
        decreases n - j,
    {
        let note = notes[j];
        proof {
            assert(note_wf(s0[j as int]));
        }
        if elapsed - note.spawn_time_ms < note.duration_ms {
            kept.push(note);
        }
        j = j + 1;
    }
    *notes = kept;
}

/// How far an annotation has floated upward: thirty units per second on
/// display.
pub open spec fn spec_rise(n: Annotation, elapsed: int) -> int {
    (elapsed - n.spawn_time_ms) * 30 / 1000
}

/// The upward drift of an annotation at `elapsed`.
pub fn annotation_rise(n: &Annotation, elapsed: i64) -> (r: i64)
    requires
        note_wf(*n),
        elapsed_ok(elapsed as int),
        n.spawn_time_ms <= elapsed,
    ensures
        r == spec_rise(*n, elapsed as int),
        r >= 0,
{
    let since = elapsed - n.spawn_time_ms;
    proof {
        assert(since * 30 <= 8 * MAX_TIME_MS * 30) by (nonlinear_arith)
            requires 0 <= since <= 8 * MAX_TIME_MS;
        assert(since * 30 >= 0) by (nonlinear_arith)
            requires since >= 0;
        lemma_div_pos_is_pos(since * 30, 1000);
    }
    (((since * 30) as u64) / 1000u64) as i64
}

/// One frame's update of the whole set.
pub open spec fn spec_advance_all(s: Seq<Target>, elapsed: int, shrink_ms: int) -> Seq<Target> {
    Seq::new(s.len(), |i: int| spec_advance_target(s[i], elapsed, shrink_ms))
}

/// What the judge leaves of the set: with the trigger pressed and an
/// eligible target present, that first target marked hit; otherwise the
/// set unchanged.
pub open spec fn spec_judge_result(
    s: Seq<Target>,
    elapsed: int,
    px: int,
    py: int,
    trigger: bool,
    shrink_ms: int,
) -> Seq<Target> {
    if !trigger {
        s
    } else {
        match spec_first_eligible(s, elapsed, px, py, shrink_ms) {
            Some(i) => s.update(i, mark_hit(s[i])),
            None => s,
        }
    }
}

/// The points one frame's input earns: the hit target's score, or none.
pub open spec fn spec_judge_points(
    s: Seq<Target>,
    elapsed: int,
    px: int,
    py: int,
    trigger: bool,
    shrink_ms: int,
) -> int {
    if !trigger {
        0
    } else {
        match spec_first_eligible(s, elapsed, px, py, shrink_ms) {
            Some(i) => spec_judge_score(s[i].hit_time_ms as int, elapsed),
            None => 0,
        }
    }
}

/// The miss annotations a frame emits are all in range.
pub proof fn lemma_miss_notes_wf(s: Seq<Target>, elapsed: int, shrink_ms: int)
    requires
        elapsed_ok(elapsed),
    ensures
        notes_wf(spec_miss_notes(s, elapsed, shrink_ms)),
{
    lemma_miss_notes_upto_wf(s, elapsed, shrink_ms, s.len() as int);
}

proof fn lemma_miss_notes_upto_wf(s: Seq<Target>, elapsed: int, shrink_ms: int, i: int)
    requires
        elapsed_ok(elapsed),
    ensures
        notes_wf(miss_notes_upto(s, elapsed, shrink_ms, i)),
    decreases i,
{
    if i > 0 {
        lemma_miss_notes_upto_wf(s, elapsed, shrink_ms, i - 1);
        let prev = miss_notes_upto(s, elapsed, shrink_ms, i - 1);
        let cur = miss_notes_upto(s, elapsed, shrink_ms, i);
        assert forall|j: int| 0 <= j < cur.len() implies note_wf(#[trigger] cur[j]) by {
            if j < prev.len() {
                assert(cur[j] == prev[j]);
            } else {
                assert(cur[j] == miss_note(s[i - 1], elapsed));
            }
        }
    }
}

/// One entry of the per-frame draw list: which target to draw and at
/// what radius.
#[derive(Clone, Copy, Debug, PartialEq, Eq, Structural)]
pub struct RenderItem {
    /// Index of the target in the session's target vector.
    pub index: usize,
    /// The target's current radius.
    pub radius: i64,
}

/// A target that is drawn this frame: inside its window and not hit.
pub open spec fn drawable(t: Target, elapsed: int, shrink_ms: int) -> bool {
    t.state !is Hit && in_window(t, elapsed, shrink_ms)
}

/// The draw list over the first `i` targets, in order.
pub open spec fn render_upto(s: Seq<Target>, elapsed: int, shrink_ms: int, i: int) -> Seq<
    RenderItem,
>
    decreases i,
{
    if i <= 0 {
        Seq::empty()
    } else if drawable(s[i - 1], elapsed, shrink_ms) {
        render_upto(s, elapsed, shrink_ms, i - 1)
            + seq![
                RenderItem {
                    index: (i - 1) as usize,
                    radius: spec_radius(s[i - 1], elapsed, shrink_ms) as i64,
                },
            ]
    } else {
        render_upto(s, elapsed, shrink_ms, i - 1)
    }
}

/// The whole frame's draw list: every unhit target inside its window,
/// with its current radius, in target order.
pub open spec fn spec_render_list(s: Seq<Target>, elapsed: int, shrink_ms: int) -> Seq<
    RenderItem,
> {
    render_upto(s, elapsed, shrink_ms, s.len() as int)
}

/// Collect what this frame draws: each target still to be drawn, with
/// its current shrinking radius.
pub fn render_targets(targets: &Vec<Target>, elapsed: i64, shrink_ms: i64) -> (r: Vec<RenderItem>)
    requires
        targets_wf(targets@, shrink_ms as int),
        elapsed_ok(elapsed as int),
    ensures
        r@ == spec_render_list(targets@, elapsed as int, shrink_ms as int),
{
    let n = targets.len();
    let mut out: Vec<RenderItem> = Vec::new();
    let mut k: usize = 0;
    while k < n
        invariant
            k <= n,
            n == targets@.len(),
            targets_wf(targets@, shrink_ms as int),
            elapsed_ok(elapsed as int),
            out@ == render_upto(targets@, elapsed as int, shrink_ms as int, k as int),
        decreases n - k,
    {
        let t = targets[k];
        proof {
            assert(targets@[k as int].wf(shrink_ms as int));
        }
        let hit = matches!(t.state, TargetState::Hit);
        if !hit {
            match current_radius(&t, elapsed, shrink_ms) {
                Some(radius) => {
                    out.push(RenderItem { index: k, radius });
                    proof {
                        assert(out@ =~= render_upto(
                            targets@, elapsed as int, shrink_ms as int, k as int + 1,
                        ));
                    }
                },
                None => {},
            }
        }
        k = k + 1;
    }
    out
}

/// A target never hit whose deadline is well past — later than its hit
/// time plus half the shrink window — is missed by the frame update.
pub proof fn lemma_deadline_forces_miss(t: Target, elapsed: int, shrink_ms: int)
    requires
        t.wf(shrink_ms),
        t.state !is Hit,
        elapsed > t.hit_time_ms + shrink_ms / 2,
    ensures
        spec_advance_target(t, elapsed, shrink_ms).state is Missed,
{
    lemma_div_pos_is_pos(shrink_ms, 2);
}

/// Once terminal, a target is beyond reach: the frame update leaves it
/// unchanged and no press can select it.
pub proof fn lemma_terminal_is_final(
    t: Target,
    elapsed: int,
    px: int,
    py: int,
    shrink_ms: int,
)
    requires
        t.terminal(),
    ensures
        spec_advance_target(t, elapsed, shrink_ms) == t,
        !eligible(t, elapsed, px, py, shrink_ms),
{
}

/// What the first-eligible search returns really is eligible, and
/// nothing before it is.
proof fn lemma_first_eligible_found(
    s: Seq<Target>,
    elapsed: int,
    px: int,
    py: int,
    shrink_ms: int,
    i0: int,
)
    requires
        0 <= i0,
    ensures
        first_eligible_from(s, elapsed, px, py, shrink_ms, i0) matches Some(j)
            ==> i0 <= j < s.len() && eligible(s[j], elapsed, px, py, shrink_ms),
    decreases s.len() - i0,
{
    if i0 < s.len() && !eligible(s[i0], elapsed, px, py, shrink_ms) {
        lemma_first_eligible_found(s, elapsed, px, py, shrink_ms, i0 + 1);
    }
}

/// Over a whole frame — advance, then judge — a target that has reached
/// a terminal state comes out exactly as it went in: no elapsed time and
/// no input can change it any more.
pub proof fn lemma_frame_preserves_terminal(
    s: Seq<Target>,
    elapsed: int,
    px: int,
    py: int,
    trigger: bool,
    shrink_ms: int,
    i: int,
)
    requires
        0 <= i < s.len(),
        s[i].terminal(),
    ensures
        spec_judge_result(
            spec_advance_all(s, elapsed, shrink_ms), elapsed, px, py, trigger, shrink_ms,
        )[i] == s[i],
{
    let advanced = spec_advance_all(s, elapsed, shrink_ms);
    assert(advanced[i] == s[i]);
    if trigger {
        match spec_first_eligible(advanced, elapsed, px, py, shrink_ms) {
            Some(j) => {
                lemma_first_eligible_found(advanced, elapsed, px, py, shrink_ms, 0);
                assert(eligible(advanced[j], elapsed, px, py, shrink_ms));
                assert(j != i);
            },
            None => {},
        }
    }
}

} // verus!
