use yumosu::session::{play_frame, step, SessionEvent, SessionState};
use yumosu::target::{Annotation, Target, TargetState};

const SHRINK: i64 = 1500;

#[test]
fn menu_opens_the_library() {
    let next = step(SessionState::Menu, SessionEvent::OpenLibrary);
    assert!(matches!(next, SessionState::SongSelection { load_failed: false }));
}

#[test]
fn choosing_a_track_starts_analysis() {
    let state = SessionState::SongSelection { load_failed: false };
    let event = SessionEvent::TrackChosen { track: String::from("songs/a.mp3") };
    let next = step(state, event);
    match next {
        SessionState::Analyzing { track } => assert_eq!(track, "songs/a.mp3"),
        _ => panic!("expected the analyzing phase"),
    }
}

#[test]
fn analysis_completion_starts_the_countdown() {
    let state = SessionState::Analyzing { track: String::from("songs/a.mp3") };
    let event = SessionEvent::AnalysisCompleted { beats: vec![0, 1000, 2000] };
    let next = step(state, event);
    match next {
        SessionState::Countdown { beats } => assert_eq!(beats, vec![0, 1000, 2000]),
        _ => panic!("expected the countdown phase"),
    }
}

#[test]
fn analysis_failure_returns_to_selection_with_flag() {
    let state = SessionState::Analyzing { track: String::from("songs/bad.mp3") };
    let next = step(state, SessionEvent::AnalysisFailed);
    assert!(matches!(next, SessionState::SongSelection { load_failed: true }));
}

#[test]
fn countdown_completion_schedules_one_target_per_beat() {
    let state = SessionState::Countdown { beats: vec![0, 1000, 2000] };
    let event = SessionEvent::CountdownFinished { spawn_radius: 200, center_x: 400, center_y: 300 };
    let next = step(state, event);
    match next {
        SessionState::Playing { targets, score, notes } => {
            assert_eq!(targets.len(), 3);
            assert_eq!(score, 0);
            assert!(notes.is_empty());
            for (i, t) in targets.iter().enumerate() {
                let beat = (i as i64) * 1000;
                assert_eq!(t.spawn_time_ms, beat + 3500);
                assert_eq!(t.hit_time_ms, beat + 5000);
                assert!(matches!(t.state, TargetState::Pending));
                let dx = t.x - 400;
                let dy = t.y - 300;
                assert!(dx * dx + dy * dy < 200 * 200);
            }
        },
        _ => panic!("expected the playing phase"),
    }
}

#[test]
fn playback_completion_ends_the_session_with_the_score() {
    let state = SessionState::Playing { targets: Vec::new(), score: 450, notes: Vec::new() };
    let next = step(state, SessionEvent::PlaybackFinished);
    match next {
        SessionState::Ended { score } => assert_eq!(score, 450),
        _ => panic!("expected the ended phase"),
    }
}

#[test]
fn cancel_returns_to_the_menu() {
    let state = SessionState::Playing { targets: Vec::new(), score: 0, notes: Vec::new() };
    assert!(matches!(step(state, SessionEvent::Cancelled), SessionState::Menu));
}

#[test]
fn acknowledging_the_end_returns_to_the_menu() {
    let state = SessionState::Ended { score: 450 };
    assert!(matches!(step(state, SessionEvent::Acknowledged), SessionState::Menu));
}

#[test]
fn stale_analysis_results_are_discarded() {
    let next = step(SessionState::Menu, SessionEvent::AnalysisCompleted { beats: vec![0, 500] });
    assert!(matches!(next, SessionState::Menu));
    let next = step(
        SessionState::Ended { score: 10 },
        SessionEvent::AnalysisCompleted { beats: vec![0, 500] },
    );
    match next {
        SessionState::Ended { score } => assert_eq!(score, 10),
        _ => panic!("a stale result must not move the session"),
    }
}

#[test]
fn unrelated_events_leave_the_state_alone() {
    assert!(matches!(step(SessionState::Menu, SessionEvent::Cancelled), SessionState::Menu));
    assert!(matches!(
        step(SessionState::Menu, SessionEvent::PlaybackFinished),
        SessionState::Menu
    ));
    let state = SessionState::SongSelection { load_failed: false };
    assert!(matches!(
        step(state, SessionEvent::OpenLibrary),
        SessionState::SongSelection { load_failed: false }
    ));
}

#[test]
fn play_frame_hits_activates_and_scores() {
    let mut targets = vec![
        Target {
            x: 100,
            y: 100,
            spawn_time_ms: 0,
            hit_time_ms: SHRINK,
            max_radius: 100,
            state: TargetState::Pending,
        },
    ];
    let mut notes: Vec<Annotation> = Vec::new();
    let mut score: i64 = 0;
    // frame 1: no press; the pending target activates
    let hit = play_frame(&mut targets, &mut notes, &mut score, 10, 0, 0, false, SHRINK);
    assert_eq!(hit, None);
    assert!(matches!(targets[0].state, TargetState::Active));
    assert_eq!(score, 0);
    // frame 2: press on the target near its hit time
    let hit = play_frame(&mut targets, &mut notes, &mut score, 1450, 100, 100, true, SHRINK);
    assert_eq!(hit, Some(0));
    assert!(matches!(targets[0].state, TargetState::Hit));
    assert_eq!(score, 300);
    // frame 3: another press changes nothing; the target is terminal
    let hit = play_frame(&mut targets, &mut notes, &mut score, 1460, 100, 100, true, SHRINK);
    assert_eq!(hit, None);
    assert!(matches!(targets[0].state, TargetState::Hit));
    assert_eq!(score, 300);
    assert!(notes.is_empty());
}

#[test]
fn play_frame_misses_and_prunes_the_annotation() {
    let mut targets = vec![
        Target {
            x: 70,
            y: 80,
            spawn_time_ms: 0,
            hit_time_ms: SHRINK,
            max_radius: 100,
            state: TargetState::Active,
        },
    ];
    let mut notes: Vec<Annotation> = Vec::new();
    let mut score: i64 = 0;
    // the window has passed: the target is missed, one annotation appears
    let hit = play_frame(&mut targets, &mut notes, &mut score, SHRINK + 1, 0, 0, false, SHRINK);
    assert_eq!(hit, None);
    assert!(matches!(targets[0].state, TargetState::Missed));
    assert_eq!(score, 0);
    assert_eq!(notes.len(), 1);
    assert_eq!(notes[0].x, 70);
    assert_eq!(notes[0].y, 80);
    // a second's worth of frames later the annotation is gone
    play_frame(&mut targets, &mut notes, &mut score, SHRINK + 1200, 0, 0, false, SHRINK);
    assert!(notes.is_empty());
}
