//! Session orchestrator: one tagged state per phase of a play-through,
//! with explicit transition functions. The render loop owns the state,
//! feeds events in as they happen, and runs the per-frame play update
//! while the session is in its playing phase. An analysis result that
//! arrives once the session has left the analyzing phase is discarded.

use vstd::prelude::*;
use crate::config::{
    COUNTDOWN_DURATION_MS, COORD_LIMIT, RADIUS_LIMIT, SHRINK_TIME_MS, TARGET_MAX_RADIUS,
};
use crate::debounce::times_ok;
use crate::schedule::schedule_targets;
use crate::target::{
    advance_targets, coord_ok, dist_sq, elapsed_ok, judge_hits, lemma_miss_notes_wf, notes_wf,
    prune_annotations, spec_advance_all, spec_judge_points, spec_judge_result, spec_live_notes,
    spec_miss_notes, targets_wf, Annotation, Target,
};

verus! {

/// The phase a session is in. Exactly one is active at a time, with the
/// data that phase owns.
pub enum SessionState {
    /// The opening menu.
    Menu,
    /// Choosing a track; `load_failed` reports a failed analysis attempt.
    SongSelection { load_failed: bool },
    /// Beat analysis of the chosen track runs in the background.
    Analyzing { track: String },
    /// Analysis done; counting down to play start.
    Countdown { beats: Vec<i64> },
    /// Targets live; input is judged every frame.
    Playing { targets: Vec<Target>, score: i64, notes: Vec<Annotation> },
    /// The track finished; showing the final score.
    Ended { score: i64 },
}

/// What can happen to a session.
pub enum SessionEvent {
    /// The player asked for the track library.
    OpenLibrary,
    /// The player chose a track.
    TrackChosen { track: String },
    /// The background analysis delivered the beat sequence.
    AnalysisCompleted { beats: Vec<i64> },
    /// The background analysis failed (unreadable or corrupt track).
    AnalysisFailed,
    /// The countdown ran out; play starts with the screen laid out so.
    CountdownFinished { spawn_radius: i64, center_x: i64, center_y: i64 },
    /// The audio stream reported completion.
    PlaybackFinished,
    /// The player cancelled out of play.
    Cancelled,
    /// The player acknowledged the end screen.
    Acknowledged,
}

impl SessionState {
    /// What every reachable state satisfies: beats in range, targets well
    /// formed for the session's shrink time, the score never negative.
    pub open spec fn wf(self) -> bool {
        match self {
            SessionState::Countdown { beats } => times_ok(beats@),
            SessionState::Playing { targets, score, notes } => {
                &&& targets_wf(targets@, SHRINK_TIME_MS as int)
                &&& notes_wf(notes@)
                &&& 0 <= score
            },
            _ => true,
        }
    }
}

/// The events a state may be fed: beat sequences in range and a screen
/// layout the scheduler can work with.
pub open spec fn event_ok(event: SessionEvent) -> bool {
    match event {
        SessionEvent::AnalysisCompleted { beats } => times_ok(beats@),
        SessionEvent::CountdownFinished { spawn_radius, center_x, center_y } => {
            &&& 1 <= spawn_radius <= RADIUS_LIMIT
            &&& -COORD_LIMIT <= center_x <= COORD_LIMIT
            &&& -COORD_LIMIT <= center_y <= COORD_LIMIT
        },
        _ => true,
    }
}

/// The pairs of state and event on which the session moves; on every
/// other pair it stays exactly where it is.
pub open spec fn transition_enabled(state: SessionState, event: SessionEvent) -> bool {
    ||| state is Menu && event is OpenLibrary
    ||| state is SongSelection && event is TrackChosen
    ||| state is Analyzing && event is AnalysisCompleted
    ||| state is Analyzing && event is AnalysisFailed
    ||| state is Countdown && event is CountdownFinished
    ||| state is Playing && event is PlaybackFinished
    ||| state is Playing && event is Cancelled
    ||| state is Ended && event is Acknowledged
}

/// Feed one event to the session and return the next state.
///
/// The transitions are exactly those of the phase diagram: menu to
/// selection, selection to analyzing with the choice stored, analyzing
/// to countdown on success or back to selection with the failure flagged,
/// countdown to playing with one target scheduled per beat (the countdown
/// duration is the scheduling delay), playing to ended when playback
/// finishes or to the menu on cancel, and ended to the menu on
/// acknowledgement. Any other event leaves the state unchanged — in
/// particular, an analysis result that arrives in any phase but
/// analyzing is stale and discarded.
pub fn step(state: SessionState, event: SessionEvent) -> (next: SessionState)
    requires
        state.wf(),
        event_ok(event),
    ensures
        next.wf(),
        state is Menu && event is OpenLibrary
            ==> next matches SessionState::SongSelection { load_failed: false },
        state is SongSelection ==> (event matches SessionEvent::TrackChosen { track }
            ==> (next matches SessionState::Analyzing { track: stored } && stored@ == track@)),
        state is Analyzing ==> (event matches SessionEvent::AnalysisCompleted { beats }
            ==> (next matches SessionState::Countdown { beats: stored } && stored@ == beats@)),
        state is Analyzing && event is AnalysisFailed
            ==> next matches SessionState::SongSelection { load_failed: true },
        state matches SessionState::Countdown { beats }
            ==> (event matches SessionEvent::CountdownFinished { spawn_radius, center_x, center_y }
            ==> (next matches SessionState::Playing { targets, score, notes } && {
                &&& score == 0
                &&& notes@.len() == 0
                &&& targets@.len() == beats@.len()
                &&& forall|i: int| 0 <= i < targets@.len() ==> {
                    let t = #[trigger] targets@[i];
                    &&& t.spawn_time_ms == beats@[i] - SHRINK_TIME_MS + COUNTDOWN_DURATION_MS
                    &&& t.hit_time_ms == beats@[i] + COUNTDOWN_DURATION_MS
                    &&& t.max_radius == TARGET_MAX_RADIUS
                    &&& t.state is Pending
                    &&& dist_sq(t.x as int, t.y as int, center_x as int, center_y as int)
                        < spawn_radius * spawn_radius
                }
            })),
        state matches SessionState::Playing { targets: _, score, notes: _ }
            ==> (event is PlaybackFinished
            ==> (next matches SessionState::Ended { score: kept } && kept == score)),
        state is Playing && event is Cancelled ==> next is Menu,
        state is Ended && event is Acknowledged ==> next is Menu,
        !transition_enabled(state, event) ==> next == state,
{
    match (state, event) {
        (SessionState::Menu, SessionEvent::OpenLibrary) => {
            SessionState::SongSelection { load_failed: false }
        },
        (SessionState::SongSelection { .. }, SessionEvent::TrackChosen { track }) => {
            SessionState::Analyzing { track }
        },
        (SessionState::Analyzing { .. }, SessionEvent::AnalysisCompleted { beats }) => {
            SessionState::Countdown { beats }
        },
        (SessionState::Analyzing { .. }, SessionEvent::AnalysisFailed) => {
            SessionState::SongSelection { load_failed: true }
        },
        (
            SessionState::Countdown { beats },
            SessionEvent::CountdownFinished { spawn_radius, center_x, center_y },
        ) => {
            let targets = schedule_targets(
                &beats,
                spawn_radius,
                center_x,
                center_y,
                SHRINK_TIME_MS,
                COUNTDOWN_DURATION_MS,
            );
            SessionState::Playing { targets, score: 0, notes: Vec::new() }
        },
        (SessionState::Playing { targets: _, score, notes: _ }, SessionEvent::PlaybackFinished) => {
            SessionState::Ended { score }
        },
        (SessionState::Playing { .. }, SessionEvent::Cancelled) => SessionState::Menu,
        (SessionState::Ended { .. }, SessionEvent::Acknowledged) => SessionState::Menu,
        (other, _) => other,
    }
}

/// Run one frame of play: advance every target (activating and missing
/// as their times pass), judge the frame's input against the advanced
/// targets — at most one hit per press — and drop the annotations whose
/// display time has run out. Returns the index of the target hit this
/// frame, if any. The score never decreases.
pub fn play_frame(
    targets: &mut Vec<Target>,
    notes: &mut Vec<Annotation>,
    score: &mut i64,
    elapsed: i64,
    px: i64,
    py: i64,
    trigger: bool,
    shrink_ms: i64,
) -> (hit: Option<usize>)
    requires
        targets_wf(old(targets)@, shrink_ms as int),
        notes_wf(old(notes)@),
        elapsed_ok(elapsed as int),
        coord_ok(px as int),
        coord_ok(py as int),
        0 <= *old(score) <= i64::MAX - 300,
    ensures
        ({
            let advanced = spec_advance_all(old(targets)@, elapsed as int, shrink_ms as int);
            &&& final(targets)@ == spec_judge_result(
                advanced, elapsed as int, px as int, py as int, trigger, shrink_ms as int,
            )
            &&& *final(score) == *old(score) + spec_judge_points(
                advanced, elapsed as int, px as int, py as int, trigger, shrink_ms as int,
            )
            &&& hit matches Some(h) ==> trigger
                && crate::target::spec_first_eligible(
                    advanced, elapsed as int, px as int, py as int, shrink_ms as int,
                ) == Some(h as int)
        }),
        final(notes)@ == spec_live_notes(
            old(notes)@ + spec_miss_notes(old(targets)@, elapsed as int, shrink_ms as int),
            elapsed as int,
        ),
        targets_wf(final(targets)@, shrink_ms as int),
        notes_wf(final(notes)@),
        final(targets)@.len() == old(targets)@.len(),
        *final(score) >= *old(score),
{
    let ghost t0 = targets@;
    let ghost n0 = notes@;
    advance_targets(targets, elapsed, shrink_ms, notes);
    proof {
        assert(targets@ =~= spec_advance_all(t0, elapsed as int, shrink_ms as int));
        lemma_miss_notes_wf(t0, elapsed as int, shrink_ms as int);
        let miss = spec_miss_notes(t0, elapsed as int, shrink_ms as int);
        assert forall|i: int| 0 <= i < notes@.len() implies crate::target::note_wf(
            #[trigger] notes@[i],
        ) by {
            if i < n0.len() {
                assert(notes@[i] == n0[i]);
            } else {
                assert(notes@[i] == miss[i - n0.len()]);
            }
        }
    }
    let hit = judge_hits(targets, elapsed, px, py, trigger, shrink_ms, score);
    prune_annotations(notes, elapsed);
    hit
}

} // verus!
