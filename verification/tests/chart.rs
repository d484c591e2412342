use drum_city::consts::{
    BASE_SPEED, DISTANCE, SPAWN_POSITION, START_TIME_OFFSET, TARGET_POSITION, THRESHOLD,
    TICKS_PER_SECOND, UNIT,
};
use drum_city::error::EngineError;
use drum_city::types::{
    build, load_config, ArrowTime, ArrowTimeToml, Directions, SongConfigToml, Speed,
};

fn entry(click_time: i64, speed: Speed, direction: Directions) -> ArrowTimeToml {
    ArrowTimeToml { click_time, speed, direction }
}

#[test]
fn constants_are_in_steps_and_ticks() {
    assert_eq!(TICKS_PER_SECOND, 1_000_000);
    assert_eq!(UNIT, 1_000_000);
    assert_eq!(BASE_SPEED, 200);
    assert_eq!(SPAWN_POSITION, -400 * UNIT);
    assert_eq!(TARGET_POSITION, 200 * UNIT);
    assert_eq!(THRESHOLD, 20 * UNIT);
    assert_eq!(DISTANCE, 600 * UNIT);
    assert_eq!(START_TIME_OFFSET, 3 * TICKS_PER_SECOND);
}

#[test]
fn speed_values_follow_the_multipliers() {
    assert_eq!(Speed::Slow.multiplier(), 10);
    assert_eq!(Speed::Medium.multiplier(), 12);
    assert_eq!(Speed::Fast.multiplier(), 15);
    assert_eq!(Speed::Slow.value(), 200);
    assert_eq!(Speed::Medium.value(), 240);
    assert_eq!(Speed::Fast.value(), 300);
}

#[test]
fn travel_duration_is_positive_and_falls_with_speed() {
    let slow = Speed::Slow.travel_duration();
    let medium = Speed::Medium.travel_duration();
    let fast = Speed::Fast.travel_duration();
    assert_eq!(slow, 3_000_000);
    assert_eq!(medium, 2_500_000);
    assert_eq!(fast, 2_000_000);
    assert!(fast > 0);
    assert!(slow > medium && medium > fast);
}

#[test]
fn directions_have_their_rotation_and_lane() {
    assert_eq!(Directions::Up.rotation(), 90);
    assert_eq!(Directions::Down.rotation(), -90);
    assert_eq!(Directions::Left.rotation(), 180);
    assert_eq!(Directions::Right.rotation(), 0);
    assert_eq!(Directions::Up.y(), 150 * UNIT);
    assert_eq!(Directions::Down.y(), 50 * UNIT);
    assert_eq!(Directions::Left.y(), -50 * UNIT);
    assert_eq!(Directions::Right.y(), -150 * UNIT);
}

#[test]
fn spawn_time_is_hit_time_less_the_travel() {
    let arrow = ArrowTime::new_from_toml(&entry(4_000_000, Speed::Slow, Directions::Up));
    assert_eq!(
        arrow,
        ArrowTime { spawn_time: 1_000_000, speed: Speed::Slow, direction: Directions::Up }
    );
    let arrow = ArrowTime::new_from_toml(&entry(4_000_000, Speed::Medium, Directions::Left));
    assert_eq!(arrow.spawn_time, 1_500_000);
    let arrow = ArrowTime::new_from_toml(&entry(4_000_000, Speed::Fast, Directions::Down));
    assert_eq!(arrow.spawn_time, 2_000_000);
    let arrow = ArrowTime::new_from_toml(&entry(0, Speed::Slow, Directions::Down));
    assert_eq!(arrow.spawn_time, -3_000_000);
}

#[test]
fn build_of_nothing_is_nothing() {
    assert_eq!(build(&vec![]), Ok(vec![]));
}

#[test]
fn build_sorts_by_spawn_time_not_by_hit_time() {
    // The fast arrow is hit later but appears later still than the slow one
    // is hit earlier: hit times 5.0 s and 5.5 s give spawn times 3.0 s and 2.5 s.
    let entries = vec![
        entry(5_000_000, Speed::Fast, Directions::Up),
        entry(5_500_000, Speed::Slow, Directions::Down),
        entry(1_000_000, Speed::Medium, Directions::Left),
    ];
    let arrows = build(&entries).unwrap();
    assert_eq!(
        arrows,
        vec![
            ArrowTime { spawn_time: -1_500_000, speed: Speed::Medium, direction: Directions::Left },
            ArrowTime { spawn_time: 2_500_000, speed: Speed::Slow, direction: Directions::Down },
            ArrowTime { spawn_time: 3_000_000, speed: Speed::Fast, direction: Directions::Up },
        ]
    );
}

#[test]
fn build_keeps_length_and_ascending_order() {
    let mut entries = Vec::new();
    let mut seed: i64 = 12345;
    for i in 0..200 {
        seed = (seed * 1_103_515_245 + 12_345) % 2_147_483_648;
        let speed = match i % 3 {
            0 => Speed::Slow,
            1 => Speed::Medium,
            _ => Speed::Fast,
        };
        entries.push(entry(seed % 60_000_000, speed, Directions::Right));
    }
    let arrows = build(&entries).unwrap();
    assert_eq!(arrows.len(), entries.len());
    for pair in arrows.windows(2) {
        assert!(pair[0].spawn_time <= pair[1].spawn_time);
    }
}

#[test]
fn build_keeps_the_listed_order_of_equal_spawn_times() {
    // All four appear at 1.0 s: slow arrows hit at 4.0 s, fast ones at 3.0 s.
    let entries = vec![
        entry(4_000_000, Speed::Slow, Directions::Right),
        entry(3_000_000, Speed::Fast, Directions::Left),
        entry(500_000, Speed::Slow, Directions::Up),
        entry(4_000_000, Speed::Slow, Directions::Down),
        entry(3_000_000, Speed::Fast, Directions::Up),
    ];
    let arrows = build(&entries).unwrap();
    let directions: Vec<Directions> = arrows.iter().map(|a| a.direction).collect();
    assert_eq!(
        directions,
        vec![
            Directions::Up,
            Directions::Right,
            Directions::Left,
            Directions::Down,
            Directions::Up
        ]
    );
    assert_eq!(arrows[0].spawn_time, -2_500_000);
    for arrow in &arrows[1..] {
        assert_eq!(arrow.spawn_time, 1_000_000);
    }
}

#[test]
fn build_rejects_a_spawn_time_that_cannot_be_counted() {
    let entries = vec![
        entry(4_000_000, Speed::Slow, Directions::Up),
        entry(i64::MIN + 2_999_999, Speed::Slow, Directions::Up),
    ];
    assert_eq!(build(&entries), Err(EngineError::ParseError));
    let entries = vec![entry(i64::MIN + 3_000_000, Speed::Slow, Directions::Up)];
    assert_eq!(build(&entries).unwrap()[0].spawn_time, i64::MIN);
    let entries = vec![entry(i64::MIN + 1_999_999, Speed::Fast, Directions::Up)];
    assert_eq!(build(&entries), Err(EngineError::ParseError));
}

#[test]
fn load_config_keeps_name_and_song_and_orders_the_arrows() {
    let parsed = SongConfigToml {
        name: "Test song".to_string(),
        filename: "test.ogg".to_string(),
        arrows: vec![
            entry(9_000_000, Speed::Slow, Directions::Up),
            entry(7_000_000, Speed::Fast, Directions::Down),
        ],
    };
    let config = load_config(parsed).unwrap();
    assert_eq!(config.name, "Test song");
    assert_eq!(config.song_audio, "test.ogg");
    assert_eq!(
        config.arrows,
        vec![
            ArrowTime { spawn_time: 5_000_000, speed: Speed::Fast, direction: Directions::Down },
            ArrowTime { spawn_time: 6_000_000, speed: Speed::Slow, direction: Directions::Up },
        ]
    );
}

#[test]
fn load_config_rejects_the_whole_chart() {
    let parsed = SongConfigToml {
        name: "Broken".to_string(),
        filename: "broken.ogg".to_string(),
        arrows: vec![
            entry(9_000_000, Speed::Slow, Directions::Up),
            entry(i64::MIN, Speed::Medium, Directions::Down),
        ],
    };
    assert!(matches!(load_config(parsed), Err(EngineError::ParseError)));
}
