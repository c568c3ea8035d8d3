use yumosu::config::ANNOTATION_DURATION_MS;
use yumosu::target::{
    advance_targets, annotation_rise, current_radius, judge_hits, judge_score,
    prune_annotations, render_targets, Annotation, FeedbackKind, Target, TargetState,
};

const SHRINK: i64 = 1500;

fn target_at(x: i64, y: i64, spawn: i64, state: TargetState) -> Target {
    Target {
        x,
        y,
        spawn_time_ms: spawn,
        hit_time_ms: spawn + SHRINK,
        max_radius: 100,
        state,
    }
}

#[test]
fn judge_score_tiers() {
    // |diff| = 0.05 s
    assert_eq!(judge_score(1000, 1050), 300);
    assert_eq!(judge_score(1000, 950), 300);
    // |diff| = 0.2 s
    assert_eq!(judge_score(1000, 1200), 100);
    assert_eq!(judge_score(1000, 800), 100);
    // |diff| = 0.35 s
    assert_eq!(judge_score(1000, 1350), 50);
    // boundaries: 0.1 s is good, not perfect; 0.3 s is ok, not good
    assert_eq!(judge_score(1000, 1100), 100);
    assert_eq!(judge_score(1000, 1300), 50);
    // dead on
    assert_eq!(judge_score(1000, 1000), 300);
}

#[test]
fn radius_shrinks_linearly() {
    let t = target_at(0, 0, 1000, TargetState::Active);
    assert_eq!(current_radius(&t, 1000, SHRINK), Some(100));
    assert_eq!(current_radius(&t, 1750, SHRINK), Some(50));
    assert_eq!(current_radius(&t, 2500, SHRINK), Some(0));
    assert_eq!(current_radius(&t, 999, SHRINK), None);
    assert_eq!(current_radius(&t, 2501, SHRINK), None);
}

#[test]
fn first_spatial_match_wins_one_hit_per_press() {
    // two overlapping eligible targets: only the first is hit
    let mut targets = vec![
        target_at(100, 100, 0, TargetState::Active),
        target_at(110, 100, 0, TargetState::Active),
    ];
    let mut score: i64 = 0;
    let hit = judge_hits(&mut targets, 100, 105, 100, true, SHRINK, &mut score);
    assert_eq!(hit, Some(0));
    assert!(matches!(targets[0].state, TargetState::Hit));
    assert!(matches!(targets[1].state, TargetState::Active));
    assert_eq!(score, 50); // 1400 ms early: far beyond 0.3 s from hit time
}

#[test]
fn no_trigger_changes_nothing() {
    let mut targets = vec![target_at(100, 100, 0, TargetState::Active)];
    let mut score: i64 = 7;
    let hit = judge_hits(&mut targets, 100, 100, 100, false, SHRINK, &mut score);
    assert_eq!(hit, None);
    assert_eq!(score, 7);
    assert!(matches!(targets[0].state, TargetState::Active));
}

#[test]
fn pointer_outside_radius_misses() {
    let mut targets = vec![target_at(100, 100, 0, TargetState::Active)];
    let mut score: i64 = 0;
    // at 750 ms the radius is 50; the pointer sits 60 away
    let hit = judge_hits(&mut targets, 750, 160, 100, true, SHRINK, &mut score);
    assert_eq!(hit, None);
    assert_eq!(score, 0);
}

#[test]
fn perfect_hit_scores_three_hundred() {
    let mut targets = vec![target_at(100, 100, 0, TargetState::Active)];
    let mut score: i64 = 0;
    // right at the hit time the radius is 0, so aim just before it
    let hit = judge_hits(&mut targets, 1450, 100, 100, true, SHRINK, &mut score);
    assert_eq!(hit, Some(0));
    assert_eq!(score, 300);
}

#[test]
fn pending_target_activates_at_spawn_time() {
    let mut targets = vec![target_at(0, 0, 1000, TargetState::Pending)];
    let mut notes: Vec<Annotation> = Vec::new();
    advance_targets(&mut targets, 999, SHRINK, &mut notes);
    assert!(matches!(targets[0].state, TargetState::Pending));
    advance_targets(&mut targets, 1000, SHRINK, &mut notes);
    assert!(matches!(targets[0].state, TargetState::Active));
    assert!(notes.is_empty());
}

#[test]
fn expired_target_is_missed_and_leaves_annotation() {
    let mut targets = vec![target_at(40, 50, 0, TargetState::Active)];
    let mut notes: Vec<Annotation> = Vec::new();
    advance_targets(&mut targets, SHRINK + 1, SHRINK, &mut notes);
    assert!(matches!(targets[0].state, TargetState::Missed));
    assert_eq!(notes.len(), 1);
    assert!(matches!(notes[0].kind, FeedbackKind::Miss));
    assert_eq!(notes[0].x, 40);
    assert_eq!(notes[0].y, 50);
    assert_eq!(notes[0].spawn_time_ms, SHRINK + 1);
    assert_eq!(notes[0].duration_ms, ANNOTATION_DURATION_MS);
    assert_eq!(notes[0].kind.label(), "Miss");
}

#[test]
fn target_past_deadline_and_never_hit_is_missed() {
    // elapsed beyond hit_time + shrink/2, never hit: must be missed
    let t = target_at(0, 0, 0, TargetState::Pending);
    let elapsed = t.hit_time_ms + SHRINK / 2 + 1;
    let mut targets = vec![t];
    let mut notes: Vec<Annotation> = Vec::new();
    advance_targets(&mut targets, elapsed, SHRINK, &mut notes);
    assert!(matches!(targets[0].state, TargetState::Missed));
}

#[test]
fn terminal_states_stay_terminal() {
    let mut targets = vec![
        target_at(100, 100, 0, TargetState::Hit),
        target_at(100, 300, 0, TargetState::Missed),
    ];
    let mut notes: Vec<Annotation> = Vec::new();
    let mut score: i64 = 0;
    advance_targets(&mut targets, 100, SHRINK, &mut notes);
    let hit = judge_hits(&mut targets, 100, 100, 100, true, SHRINK, &mut score);
    assert_eq!(hit, None);
    assert_eq!(score, 0);
    assert!(notes.is_empty());
    assert!(matches!(targets[0].state, TargetState::Hit));
    assert!(matches!(targets[1].state, TargetState::Missed));
}

#[test]
fn annotations_expire_after_their_duration() {
    let note = Annotation {
        kind: FeedbackKind::Miss,
        x: 0,
        y: 0,
        spawn_time_ms: 1000,
        duration_ms: 1000,
    };
    let mut notes = vec![note];
    prune_annotations(&mut notes, 1999);
    assert_eq!(notes.len(), 1);
    prune_annotations(&mut notes, 2000);
    assert!(notes.is_empty());
}

#[test]
fn annotation_rises_thirty_units_per_second() {
    let note = Annotation {
        kind: FeedbackKind::Miss,
        x: 0,
        y: 0,
        spawn_time_ms: 1000,
        duration_ms: 1000,
    };
    assert_eq!(annotation_rise(&note, 1000), 0);
    assert_eq!(annotation_rise(&note, 1500), 15);
    assert_eq!(annotation_rise(&note, 2000), 30);
}

#[test]
fn render_list_holds_unhit_targets_in_window() {
    let targets = vec![
        target_at(0, 0, 0, TargetState::Active),
        target_at(0, 0, 0, TargetState::Hit),
        target_at(0, 0, 5000, TargetState::Pending),
    ];
    let items = render_targets(&targets, 750, SHRINK);
    assert_eq!(items.len(), 1);
    assert_eq!(items[0].index, 0);
    assert_eq!(items[0].radius, 50);
}
