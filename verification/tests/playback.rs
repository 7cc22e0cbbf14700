use play_cnnee::player::{PlaybackMode, Player, SinkAction, MAX_DURATION_NANOS};

const SEC: u128 = 1_000_000_000;

#[test]
fn new_player_is_empty() {
    let p = Player::new();
    assert!(!p.has_current_file());
    assert!(!p.is_playing(0));
    assert_eq!(p.current_file_name(0), "なし");
    assert_eq!(p.get_position(5 * SEC), 0);
    assert_eq!(p.get_duration(), 0);
    assert_eq!(p.playback_mode(), PlaybackMode::Single);
    assert!(!p.is_track_finished(5 * SEC));
}

#[test]
fn playing_advances_position_and_shows_file_name() {
    let mut p = Player::new();
    p.prepare_play(Some(60 * SEC));
    p.start_play("/music/01 Talk.mp3".to_string(), PlaybackMode::Single, 100 * SEC);
    assert!(p.has_current_file());
    assert!(p.is_playing(110 * SEC));
    assert_eq!(p.current_file_name(110 * SEC), "01 Talk.mp3");
    assert_eq!(p.get_position(110 * SEC), 10 * SEC);
    assert_eq!(p.get_duration(), 60 * SEC);
    assert!(!p.is_track_finished(159 * SEC));
    assert!(p.is_track_finished(160 * SEC));
}

#[test]
fn single_play_ends_with_no_name() {
    let mut p = Player::new();
    p.prepare_play(Some(60 * SEC));
    p.start_play("/music/01 Talk.mp3".to_string(), PlaybackMode::Single, 0);
    assert_eq!(p.current_file_name(70 * SEC), "なし");
    assert!(!p.is_playing(70 * SEC));
    assert_eq!(p.get_position(70 * SEC), 60 * SEC);
}

#[test]
fn continuous_play_keeps_name_after_end() {
    let mut p = Player::new();
    p.prepare_play(Some(60 * SEC));
    p.start_play("/music/01 Talk.mp3".to_string(), PlaybackMode::Continuous, 0);
    assert_eq!(p.current_file_name(70 * SEC), "01 Talk.mp3");
    assert!(!p.is_playing(70 * SEC));
    assert!(p.is_track_finished(70 * SEC));
}

#[test]
fn repeat_wraps_position() {
    let mut p = Player::new();
    p.prepare_play(Some(60 * SEC));
    p.start_play("/music/01 Talk.mp3".to_string(), PlaybackMode::Repeat, 0);
    assert_eq!(p.get_position(130 * SEC), 10 * SEC);
    assert!(p.is_playing(130 * SEC));
    assert_eq!(p.current_file_name(130 * SEC), "01 Talk.mp3");
}

#[test]
fn unknown_or_zero_length_keeps_position_zero() {
    let mut p = Player::new();
    p.prepare_play(None);
    p.start_play("a.mp3".to_string(), PlaybackMode::Single, 0);
    assert_eq!(p.get_position(30 * SEC), 0);
    assert!(!p.is_track_finished(30 * SEC));
    assert!(p.is_playing(30 * SEC));
    let mut q = Player::new();
    q.prepare_play(Some(0));
    q.start_play("a.mp3".to_string(), PlaybackMode::Repeat, 0);
    assert_eq!(q.get_position(30 * SEC), 0);
}

#[test]
fn pause_and_resume_keep_position() {
    let mut p = Player::new();
    p.prepare_play(Some(60 * SEC));
    p.start_play("a.mp3".to_string(), PlaybackMode::Single, 0);
    let before = p.get_position(20 * SEC);
    assert_eq!(p.toggle_pause(20 * SEC), SinkAction::Pause);
    assert_eq!(p.get_position(20 * SEC), before);
    assert!(!p.is_playing(25 * SEC));
    assert_eq!(p.get_position(45 * SEC), 20 * SEC);
    assert_eq!(p.toggle_pause(50 * SEC), SinkAction::Resume);
    assert_eq!(p.get_position(50 * SEC), 20 * SEC);
    assert_eq!(p.get_position(55 * SEC), 25 * SEC);
}

#[test]
fn pause_without_file_does_nothing() {
    let mut p = Player::new();
    assert_eq!(p.toggle_pause(3), SinkAction::Unchanged);
    assert!(!p.has_current_file());
}

#[test]
fn stop_clears_everything() {
    let mut p = Player::new();
    p.prepare_play(Some(60 * SEC));
    p.start_play("a.mp3".to_string(), PlaybackMode::Repeat, 0);
    p.stop();
    assert!(!p.has_current_file());
    assert_eq!(p.get_duration(), 0);
    assert_eq!(p.get_position(10 * SEC), 0);
    assert_eq!(p.current_file_name(10 * SEC), "なし");
    assert_eq!(p.playback_mode(), PlaybackMode::Single);
}

#[test]
fn prepare_play_stops_and_keeps_length() {
    let mut p = Player::new();
    p.prepare_play(Some(60 * SEC));
    p.start_play("a.mp3".to_string(), PlaybackMode::Single, 0);
    p.prepare_play(Some(MAX_DURATION_NANOS));
    assert!(!p.has_current_file());
    assert_eq!(p.get_duration(), MAX_DURATION_NANOS);
    assert!(!p.is_playing(10 * SEC));
}

#[test]
fn clock_readings_before_the_start_are_refused() {
    let mut p = Player::new();
    assert!(p.clock_valid(0));
    p.prepare_play(Some(60 * SEC));
    p.start_play("a.mp3".to_string(), PlaybackMode::Single, 100 * SEC);
    assert!(!p.clock_valid(50 * SEC));
    assert!(p.clock_valid(100 * SEC));
    assert!(!p.clock_valid(u128::MAX));
}
