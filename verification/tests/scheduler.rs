use drum_city::arrows::Scheduler;
use drum_city::types::{build, ArrowTime, ArrowTimeToml, Directions, Speed};

fn arrow(spawn_time: i64, direction: Directions) -> ArrowTime {
    ArrowTime { spawn_time, speed: Speed::Slow, direction }
}

#[test]
fn one_arrow_spawns_once_when_its_time_comes() {
    let entries =
        vec![ArrowTimeToml { click_time: 4_000_000, speed: Speed::Slow, direction: Directions::Up }];
    let arrows = build(&entries).unwrap();
    assert_eq!(arrows[0].spawn_time, 1_000_000);
    let mut scheduler = Scheduler::new(arrows);
    assert!(scheduler.spawn_arrows(990_000, 10_000).is_empty());
    assert_eq!(scheduler.cursor(), 0);
    let spawned = scheduler.spawn_arrows(1_000_000, 10_000);
    assert_eq!(spawned, vec![arrow(1_000_000, Directions::Up)]);
    assert_eq!(scheduler.cursor(), 1);
    assert!(scheduler.is_finished());
    assert!(scheduler.spawn_arrows(1_000_000, 0).is_empty());
    assert!(scheduler.spawn_arrows(1_010_000, 10_000).is_empty());
    assert_eq!(scheduler.cursor(), 1);
}

#[test]
fn window_is_open_below_and_closed_above() {
    let mut scheduler = Scheduler::new(vec![arrow(100, Directions::Up)]);
    // The window (100, 200] does not hold 100.
    assert!(scheduler.spawn_arrows(200, 100).is_empty());
    let mut scheduler = Scheduler::new(vec![arrow(100, Directions::Up)]);
    // The window (0, 100] holds 100.
    assert_eq!(scheduler.spawn_arrows(100, 100).len(), 1);
}

#[test]
fn a_tick_drains_every_arrow_in_its_window() {
    let events = vec![
        arrow(10, Directions::Up),
        arrow(20, Directions::Down),
        arrow(20, Directions::Left),
        arrow(35, Directions::Right),
        arrow(50, Directions::Up),
    ];
    let mut scheduler = Scheduler::new(events.clone());
    let spawned = scheduler.spawn_arrows(40, 40);
    assert_eq!(spawned, events[0..4].to_vec());
    assert_eq!(scheduler.cursor(), 4);
    assert!(!scheduler.is_finished());
    let spawned = scheduler.spawn_arrows(60, 20);
    assert_eq!(spawned, events[4..5].to_vec());
    assert!(scheduler.is_finished());
}

#[test]
fn the_scheduler_stops_at_the_first_arrow_that_is_not_due() {
    let events = vec![arrow(10, Directions::Up), arrow(5, Directions::Down)];
    let mut scheduler = Scheduler::new(events);
    // The first arrow is not due yet, so the second is not looked at.
    assert!(scheduler.spawn_arrows(7, 7).is_empty());
    assert_eq!(scheduler.cursor(), 0);
}

#[test]
fn an_arrow_that_a_gap_skipped_is_never_handed_out() {
    let mut scheduler = Scheduler::new(vec![arrow(10, Directions::Up), arrow(30, Directions::Up)]);
    // The tick (15, 20] begins after the first arrow was due.
    assert!(scheduler.spawn_arrows(20, 5).is_empty());
    assert!(scheduler.spawn_arrows(40, 20).is_empty());
    assert_eq!(scheduler.cursor(), 0);
}

#[test]
fn a_run_without_gaps_spawns_every_arrow_once_in_order() {
    let events: Vec<ArrowTime> = (0..50)
        .map(|i| arrow((i * i) % 97 * 1000, Directions::Left))
        .collect();
    let mut sorted = events.clone();
    sorted.sort_by_key(|a| a.spawn_time);
    let mut scheduler = Scheduler::new(sorted.clone());
    let mut seen = Vec::new();
    let mut elapsed: i64 = -1;
    let mut step: i64 = 1;
    while elapsed < 100_000 {
        let delta = 1 + (step * 7919) % 5000;
        elapsed += delta;
        seen.extend(scheduler.spawn_arrows(elapsed, delta));
        step += 1;
    }
    assert_eq!(seen, sorted);
    assert!(scheduler.is_finished());
}

#[test]
fn reset_goes_back_to_the_first_arrow() {
    let mut scheduler = Scheduler::new(vec![arrow(10, Directions::Up)]);
    assert_eq!(scheduler.spawn_arrows(10, 10).len(), 1);
    scheduler.reset();
    assert_eq!(scheduler.cursor(), 0);
    assert_eq!(scheduler.spawn_arrows(10, 10).len(), 1);
}

#[test]
fn times_at_the_ends_of_the_range_do_not_overflow() {
    let mut scheduler = Scheduler::new(vec![arrow(i64::MAX, Directions::Up)]);
    assert!(scheduler.spawn_arrows(i64::MIN, i64::MAX).is_empty());
    assert!(scheduler.spawn_arrows(i64::MAX, i64::MIN).is_empty());
    assert_eq!(scheduler.spawn_arrows(i64::MAX, 1).len(), 1);
}

#[test]
fn an_empty_chart_is_finished_at_once() {
    let mut scheduler = Scheduler::new(Vec::new());
    assert!(scheduler.is_finished());
    assert!(scheduler.spawn_arrows(1_000_000, 1_000_000).is_empty());
}
