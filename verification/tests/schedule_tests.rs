use yumosu::config::{COUNTDOWN_DURATION_MS, SHRINK_TIME_MS, TARGET_MAX_RADIUS};
use yumosu::geom::{point_in_rect, spawn_radius_for_screen};
use yumosu::schedule::schedule_targets;
use yumosu::target::TargetState;

#[test]
fn scheduled_times_follow_beat_shrink_and_delay() {
    // beat b with shrink 1.5 s and delay 5.0 s: spawn at b + 3.5 s, hit at b + 5.0 s
    let beats: Vec<i64> = vec![2000];
    let targets = schedule_targets(&beats, 200, 400, 300, 1500, 5000);
    assert_eq!(targets.len(), 1);
    assert_eq!(targets[0].spawn_time_ms, 5500);
    assert_eq!(targets[0].hit_time_ms, 7000);
    assert_eq!(targets[0].max_radius, TARGET_MAX_RADIUS);
    assert!(matches!(targets[0].state, TargetState::Pending));
}

#[test]
fn scheduled_positions_stay_inside_the_spawn_disc() {
    let beats: Vec<i64> = (0..200).map(|k| k * 500).collect();
    let radius: i64 = 180;
    let (cx, cy) = (400i64, 300i64);
    let targets = schedule_targets(&beats, radius, cx, cy, SHRINK_TIME_MS, COUNTDOWN_DURATION_MS);
    assert_eq!(targets.len(), beats.len());
    for t in &targets {
        let dx = t.x - cx;
        let dy = t.y - cy;
        assert!(dx * dx + dy * dy < radius * radius, "target at ({}, {})", t.x, t.y);
    }
}

#[test]
fn scheduled_spawns_keep_beat_order() {
    let beats: Vec<i64> = vec![0, 400, 401, 1000, 60000];
    let targets = schedule_targets(&beats, 50, 0, 0, SHRINK_TIME_MS, COUNTDOWN_DURATION_MS);
    for w in targets.windows(2) {
        assert!(w[0].spawn_time_ms <= w[1].spawn_time_ms);
        assert!(w[0].hit_time_ms <= w[1].hit_time_ms);
    }
}

#[test]
fn spawn_radius_fits_the_screen() {
    assert_eq!(spawn_radius_for_screen(800, 600), 200);
    assert_eq!(spawn_radius_for_screen(600, 800), 200);
    assert_eq!(spawn_radius_for_screen(1920, 1080), 440);
    // a tiny screen leaves no room at all
    assert_eq!(spawn_radius_for_screen(150, 150), -25);
}

#[test]
fn point_in_rect_borders_count_as_inside() {
    assert!(point_in_rect(10, 10, 10, 10, 100, 50));
    assert!(point_in_rect(110, 60, 10, 10, 100, 50));
    assert!(point_in_rect(50, 30, 10, 10, 100, 50));
    assert!(!point_in_rect(9, 30, 10, 10, 100, 50));
    assert!(!point_in_rect(111, 30, 10, 10, 100, 50));
    assert!(!point_in_rect(50, 61, 10, 10, 100, 50));
}
