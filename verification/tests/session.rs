use bevy::input::keyboard::KeyCode;
use bevy::input::Input;
use drum_city::audio::start_song;
use drum_city::consts::{AppState, START_TIME_OFFSET};
use drum_city::error::EngineError;
use drum_city::map_maker::{Presses, MAP_NAME, SONG_FILE};
use drum_city::menu::{button_press_system, transition, Interaction, MenuButton, ModeChange};
use drum_city::time::ControlledTime;
use drum_city::keys::KeyInput;
use drum_city::types::{build, ArrowTimeToml, Directions, Speed};

#[test]
fn a_new_clock_has_counted_nothing() {
    let time = ControlledTime::default();
    assert_eq!(time.elapsed_ticks(), 0);
    assert_eq!(time.delta_ticks(), 0);
    assert_eq!(time.song_ticks(), -START_TIME_OFFSET);
    assert_eq!(time.shown_ticks(), None);
}

#[test]
fn the_first_reading_counts_nothing() {
    let mut time = ControlledTime::default();
    time.update_with_instant(5_000_000);
    assert_eq!(time.elapsed_ticks(), 0);
    assert_eq!(time.delta_ticks(), 0);
}

#[test]
fn the_clock_counts_the_ticks_between_readings() {
    let mut time = ControlledTime::default();
    time.update_with_instant(5_000_000);
    time.update_with_instant(5_016_000);
    assert_eq!(time.elapsed_ticks(), 16_000);
    assert_eq!(time.delta_ticks(), 16_000);
    time.update_with_instant(5_050_000);
    assert_eq!(time.elapsed_ticks(), 50_000);
    assert_eq!(time.delta_ticks(), 34_000);
    time.update_with_instant(5_050_000);
    assert_eq!(time.elapsed_ticks(), 50_000);
    assert_eq!(time.delta_ticks(), 0);
}

#[test]
fn time_in_the_menu_does_not_count() {
    let mut time = ControlledTime::default();
    time.update_with_instant(1_000_000);
    time.update_with_instant(2_000_000);
    assert_eq!(time.elapsed_ticks(), 1_000_000);
    // A long stay in the menu, then a new session.
    time.reset_time();
    assert_eq!(time.elapsed_ticks(), 0);
    time.update_with_instant(900_000_000);
    assert_eq!(time.elapsed_ticks(), 0);
    assert_eq!(time.delta_ticks(), 0);
    time.update_with_instant(900_020_000);
    assert_eq!(time.elapsed_ticks(), 20_000);
    assert_eq!(time.delta_ticks(), 20_000);
}

#[test]
fn a_reading_from_the_past_counts_as_the_last_one() {
    let mut time = ControlledTime::default();
    time.update_with_instant(-5);
    time.update_with_instant(10);
    assert_eq!(time.elapsed_ticks(), 10);
    time.update_with_instant(4);
    assert_eq!(time.elapsed_ticks(), 10);
    assert_eq!(time.delta_ticks(), 0);
    time.update_with_instant(12);
    assert_eq!(time.elapsed_ticks(), 12);
    assert_eq!(time.delta_ticks(), 2);
    time.update_with_instant(i64::MAX);
    assert_eq!(time.elapsed_ticks(), i64::MAX);
}

#[test]
fn song_time_runs_behind_by_the_start_offset() {
    let mut time = ControlledTime::default();
    time.update_with_instant(0);
    time.update_with_instant(2_999_999);
    assert_eq!(time.song_ticks(), -1);
    assert_eq!(time.shown_ticks(), None);
    time.update_with_instant(3_000_000);
    assert_eq!(time.song_ticks(), 0);
    assert_eq!(time.shown_ticks(), Some(0));
    time.update_with_instant(4_250_000);
    assert_eq!(time.shown_ticks(), Some(1_250_000));
}

#[test]
fn the_song_starts_in_the_tick_that_passes_the_offset() {
    let mut time = ControlledTime::default();
    let mut starts = 0;
    let mut now = 0;
    while now <= 6_000_000 {
        time.update_with_instant(now);
        if start_song(&time, 1) == Ok(true) {
            starts += 1;
            assert!(time.elapsed_ticks() >= START_TIME_OFFSET);
            assert!(time.elapsed_ticks() - time.delta_ticks() < START_TIME_OFFSET);
        }
        now += 16_000;
    }
    assert_eq!(starts, 1);
}

#[test]
fn the_song_starts_once_when_a_tick_ends_on_the_offset() {
    let mut time = ControlledTime::default();
    time.update_with_instant(0);
    time.update_with_instant(2_000_000);
    assert_eq!(start_song(&time, 1), Ok(false));
    time.update_with_instant(3_000_000);
    assert_eq!(start_song(&time, 1), Ok(true));
    time.update_with_instant(3_000_000);
    assert_eq!(start_song(&time, 1), Ok(false));
    time.update_with_instant(3_500_000);
    assert_eq!(start_song(&time, 1), Ok(false));
}

#[test]
fn starting_the_song_without_its_player_is_a_state_error() {
    let mut time = ControlledTime::default();
    time.update_with_instant(0);
    time.update_with_instant(3_100_000);
    assert_eq!(start_song(&time, 0), Err(EngineError::StateError));
    assert_eq!(start_song(&time, 2), Err(EngineError::StateError));
    assert_eq!(start_song(&time, 1), Ok(true));
    time.update_with_instant(3_200_000);
    assert_eq!(start_song(&time, 0), Ok(false));
}

#[test]
fn a_recording_writes_down_the_presses_in_key_order() {
    let mut time = ControlledTime::default();
    let mut presses = Presses::new();
    presses.setup_key_presses_storage();
    time.update_with_instant(0);
    time.update_with_instant(4_000_000);
    presses.record_presses(&time, &KeyInput { up: false, down: true, left: false, right: true });
    time.update_with_instant(4_500_000);
    presses.record_presses(&time, &KeyInput::none());
    time.update_with_instant(5_000_000);
    presses.record_presses(&time, &KeyInput { up: true, down: true, left: true, right: true });
    let chart = presses.finalize().unwrap();
    assert_eq!(chart.name, "Map Maker output");
    assert_eq!(chart.name, MAP_NAME);
    assert_eq!(chart.filename, "akisey-dance.ogg");
    assert_eq!(chart.filename, SONG_FILE);
    let slow = |click_time, direction| ArrowTimeToml { click_time, speed: Speed::Slow, direction };
    assert_eq!(
        chart.arrows,
        vec![
            slow(1_000_000, Directions::Down),
            slow(1_000_000, Directions::Right),
            slow(2_000_000, Directions::Up),
            slow(2_000_000, Directions::Down),
            slow(2_000_000, Directions::Left),
            slow(2_000_000, Directions::Right),
        ]
    );
}

#[test]
fn a_press_before_the_song_has_a_negative_click_time() {
    let mut time = ControlledTime::default();
    let mut presses = Presses::new();
    presses.setup_key_presses_storage();
    time.update_with_instant(100);
    presses.record_presses(&time, &KeyInput { up: true, down: false, left: false, right: false });
    let chart = presses.finalize().unwrap();
    assert_eq!(chart.arrows[0].click_time, -START_TIME_OFFSET);
}

#[test]
fn a_recording_that_was_not_armed_is_not_saved() {
    let mut time = ControlledTime::default();
    let mut presses = Presses::new();
    assert!(presses.finalize().is_none());
    time.update_with_instant(0);
    presses.record_presses(&time, &KeyInput { up: true, down: false, left: false, right: false });
    assert!(presses.finalize().is_none());
    presses.setup_key_presses_storage();
    assert_eq!(presses.finalize().unwrap().arrows.len(), 1);
}

#[test]
fn an_armed_recording_without_presses_is_saved_empty() {
    let mut presses = Presses::new();
    presses.setup_key_presses_storage();
    let chart = presses.finalize().unwrap();
    assert!(chart.arrows.is_empty());
}

#[test]
fn a_recording_loads_into_the_presses_that_were_made() {
    let mut time = ControlledTime::default();
    let mut presses = Presses::new();
    presses.setup_key_presses_storage();
    let mut expected = Vec::new();
    time.update_with_instant(0);
    for step in 1..40i64 {
        time.update_with_instant(step * 333_333);
        let direction = match step % 4 {
            0 => Directions::Up,
            1 => Directions::Down,
            2 => Directions::Left,
            _ => Directions::Right,
        };
        let mut input = KeyInput::none();
        match direction {
            Directions::Up => input.up = true,
            Directions::Down => input.down = true,
            Directions::Left => input.left = true,
            Directions::Right => input.right = true,
        }
        presses.record_presses(&time, &input);
        expected.push((time.elapsed_ticks() - START_TIME_OFFSET, direction));
    }
    let chart = presses.finalize().unwrap();
    let arrows = build(&chart.arrows).unwrap();
    assert_eq!(arrows.len(), expected.len());
    for (arrow, (pressed_at, direction)) in arrows.iter().zip(expected) {
        assert_eq!(arrow.spawn_time + arrow.speed.travel_duration(), pressed_at);
        assert_eq!(arrow.direction, direction);
        assert_eq!(arrow.speed, Speed::Slow);
    }
}

#[test]
fn the_first_pressed_button_takes_effect() {
    assert_eq!(button_press_system(&vec![]), None);
    assert_eq!(button_press_system(&vec![Interaction::Hovered, Interaction::Idle]), None);
    assert_eq!(
        button_press_system(&vec![
            Interaction::Idle,
            Interaction::Pressed,
            Interaction::Hovered,
            Interaction::Pressed
        ]),
        Some(1)
    );
    assert_eq!(button_press_system(&vec![Interaction::Pressed]), Some(0));
}

#[test]
fn buttons_lead_to_their_modes() {
    assert_eq!(MenuButton::MakeMap.target(), AppState::MakeMap);
    assert_eq!(MenuButton::PlaySong("akisey-dance".to_string()).target(), AppState::Game);
}

#[test]
fn the_application_starts_in_the_menu() {
    assert_eq!(AppState::default(), AppState::Menu);
}

#[test]
fn the_menu_leads_to_the_sessions_and_back() {
    assert_eq!(
        transition(AppState::Menu, AppState::Game),
        Some(ModeChange {
            despawn_arrows: false,
            save_recording: false,
            reset_clock: true,
            reset_scheduler: true,
            reset_score: true,
            arm_recording: false,
        })
    );
    assert_eq!(
        transition(AppState::Menu, AppState::MakeMap),
        Some(ModeChange {
            despawn_arrows: false,
            save_recording: false,
            reset_clock: true,
            reset_scheduler: true,
            reset_score: false,
            arm_recording: true,
        })
    );
    assert_eq!(
        transition(AppState::Game, AppState::Menu),
        Some(ModeChange {
            despawn_arrows: true,
            save_recording: false,
            reset_clock: false,
            reset_scheduler: false,
            reset_score: false,
            arm_recording: false,
        })
    );
    assert_eq!(
        transition(AppState::MakeMap, AppState::Menu),
        Some(ModeChange {
            despawn_arrows: false,
            save_recording: true,
            reset_clock: false,
            reset_scheduler: false,
            reset_score: false,
            arm_recording: false,
        })
    );
}

#[test]
fn no_other_change_of_mode_exists() {
    for state in [AppState::Menu, AppState::Game, AppState::MakeMap] {
        assert_eq!(transition(state, state), None);
    }
    assert_eq!(transition(AppState::Game, AppState::MakeMap), None);
    assert_eq!(transition(AppState::MakeMap, AppState::Game), None);
}

#[test]
fn key_just_pressed_reads_the_key_of_the_direction() {
    let mut keyboard = Input::<KeyCode>::default();
    for direction in [Directions::Up, Directions::Down, Directions::Left, Directions::Right] {
        assert!(!direction.key_just_pressed(&keyboard));
    }
    keyboard.press(KeyCode::Up);
    keyboard.press(KeyCode::Right);
    keyboard.press(KeyCode::W);
    assert!(Directions::Up.key_just_pressed(&keyboard));
    assert!(!Directions::Down.key_just_pressed(&keyboard));
    assert!(!Directions::Left.key_just_pressed(&keyboard));
    assert!(Directions::Right.key_just_pressed(&keyboard));
    keyboard.clear();
    assert!(keyboard.pressed(KeyCode::Up));
    assert!(!Directions::Up.key_just_pressed(&keyboard));
    keyboard.release(KeyCode::Up);
    keyboard.press(KeyCode::Up);
    keyboard.press(KeyCode::Down);
    assert!(Directions::Up.key_just_pressed(&keyboard));
    assert!(Directions::Down.key_just_pressed(&keyboard));
    assert!(!Directions::Right.key_just_pressed(&keyboard));
}

#[test]
fn a_snapshot_holds_the_keys_just_pressed() {
    let mut keyboard = Input::<KeyCode>::default();
    assert_eq!(KeyInput::read(&keyboard), KeyInput::none());
    keyboard.press(KeyCode::Down);
    keyboard.press(KeyCode::Left);
    let keys = KeyInput::read(&keyboard);
    assert_eq!(keys, KeyInput { up: false, down: true, left: true, right: false });
    assert!(!keys.pressed(Directions::Up));
    assert!(keys.pressed(Directions::Down));
    assert!(keys.pressed(Directions::Left));
    assert!(!keys.pressed(Directions::Right));
    keyboard.clear();
    assert_eq!(KeyInput::read(&keyboard), KeyInput::none());
}

#[test]
fn save_key_presses_writes_down_the_keys_just_pressed() {
    let mut time = ControlledTime::default();
    let mut presses = Presses::new();
    presses.setup_key_presses_storage();
    let mut keyboard = Input::<KeyCode>::default();
    time.update_with_instant(0);
    time.update_with_instant(3_500_000);
    keyboard.press(KeyCode::Right);
    keyboard.press(KeyCode::Up);
    presses.save_key_presses(&time, &keyboard);
    // The keys stay down over the next frame: nothing more is written.
    keyboard.clear();
    time.update_with_instant(3_516_000);
    presses.save_key_presses(&time, &keyboard);
    keyboard.release(KeyCode::Up);
    keyboard.clear();
    keyboard.press(KeyCode::Up);
    time.update_with_instant(3_600_000);
    presses.save_key_presses(&time, &keyboard);
    let chart = presses.finalize().unwrap();
    let slow = |click_time, direction| ArrowTimeToml { click_time, speed: Speed::Slow, direction };
    assert_eq!(
        chart.arrows,
        vec![
            slow(500_000, Directions::Up),
            slow(500_000, Directions::Right),
            slow(600_000, Directions::Up),
        ]
    );
}
