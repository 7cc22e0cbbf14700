use play_cnnee::app::{App, UpdateAction};
use play_cnnee::files::{FileInfo, FileType};
use play_cnnee::keys::{command_for_key, Command, Key};
use play_cnnee::player::{PlaybackMode, SinkAction};
use play_cnnee::scan::{classify_entry, is_mp3_extension, sort_files};
use play_cnnee::text::{decimal_string, format_minutes_seconds, progress_bar, visible_slot_indices};

const SEC: u128 = 1_000_000_000;

fn mp3(name: &str) -> FileInfo {
    FileInfo {
        path: format!("/m/{}", name),
        name: name.to_string(),
        file_type: FileType::Mp3File,
    }
}

fn dir(name: &str) -> FileInfo {
    FileInfo {
        path: format!("/m/{}", name),
        name: name.to_string(),
        file_type: FileType::Directory,
    }
}

fn sample() -> App {
    App::new(vec![
        dir("April"),
        mp3("01 Cinema.mp3"),
        mp3("02 Cinema.mp3"),
        mp3("03 News.mp3"),
    ], "/m".to_string())
    .unwrap()
}

#[test]
fn new_refuses_an_empty_directory() {
    assert!(App::new(Vec::new(), "/m".to_string()).is_none());
    let app = sample();
    assert_eq!(app.selected(), 0);
    assert!(!app.should_quit());
    assert!(app.natural_speed_only());
    assert_eq!(app.files().len(), 4);
}

#[test]
fn selection_wraps_both_ways() {
    let mut app = sample();
    app.select_prev();
    assert_eq!(app.selected(), 2);
    app.select_next();
    assert_eq!(app.selected(), 0);
    app.select_next();
    app.select_next();
    assert_eq!(app.selected(), 2);
    app.select_next();
    assert_eq!(app.selected(), 0);
}

#[test]
fn select_round_trip_restores_selection() {
    let mut app = sample();
    app.select_next();
    let s = app.selected();
    app.select_next();
    app.select_prev();
    assert_eq!(app.selected(), s);
}

#[test]
fn speed_filter_toggles_label_and_keeps_selection() {
    let mut app = sample();
    app.select_next();
    assert_eq!(app.speed_filter_label(), "ナチュラルのみ");
    app.toggle_natural_speed_filter();
    assert_eq!(app.speed_filter_label(), "全速度");
    assert_eq!(app.selected(), 1);
    app.toggle_natural_speed_filter();
    assert!(app.natural_speed_only());
}

#[test]
fn position_info_counts_from_one() {
    let mut app = sample();
    assert_eq!(app.current_position_info(), "(1/3)");
    app.select_prev();
    assert_eq!(app.current_position_info(), "(3/3)");
    app.navigate_to_directory(Vec::new(), "/m/April".to_string());
    assert_eq!(app.current_position_info(), "");
}

#[test]
fn display_indices_for_files() {
    let app = sample();
    assert_eq!(app.display_index_for_file_index(1), Some(1));
    assert_eq!(app.display_index_for_file_index(2), None);
    assert_eq!(app.display_index_at_or_after_file_index(2), Some(2));
    assert_eq!(app.display_index_at_or_after_file_index(9), Some(2));
}

#[test]
fn current_file_name_falls_back_to_selection() {
    let mut app = sample();
    assert_eq!(app.current_file_name(0), "April");
    app.select_next();
    assert_eq!(app.current_file_name(0), "01-02 Cinema.mp3");
    app.navigate_to_directory(Vec::new(), "/m/April".to_string());
    assert_eq!(app.current_file_name(0), "ファイルなし");
}

#[test]
fn enter_opens_only_directories() {
    let mut app = sample();
    assert_eq!(app.handle_enter_key(), Some("/m/April".to_string()));
    app.select_next();
    assert_eq!(app.handle_enter_key(), None);
}

#[test]
fn focus_directory_selects_the_left_directory() {
    let mut app = App::new(vec![dir("April"), dir("May"), mp3("01 A.mp3")], "/m".to_string()).unwrap();
    app.focus_directory("May");
    assert_eq!(app.selected(), 1);
    app.focus_directory("June");
    assert_eq!(app.selected(), 1);
    app.focus_directory("01 A.mp3");
    assert_eq!(app.selected(), 1);
}

#[test]
fn continuous_play_follows_the_title_then_stops() {
    let mut app = sample();
    assert_eq!(app.play_selected(), None);
    app.select_next();
    let path = app.play_selected().unwrap();
    assert_eq!(path, "/m/01 Cinema.mp3");
    app.prepare_play(Some(10 * SEC));
    app.start_play(path, PlaybackMode::Continuous, 0);
    assert!(app.is_playing(5 * SEC));
    assert!(matches!(app.update(5 * SEC), UpdateAction::Nothing));
    let next = match app.update(10 * SEC) {
        UpdateAction::PlayNext(p, mode) => {
            assert_eq!(mode, PlaybackMode::Continuous);
            p
        }
        _ => panic!("expected the next track"),
    };
    assert_eq!(next, "/m/02 Cinema.mp3");
    app.prepare_play(Some(10 * SEC));
    app.start_play(next, PlaybackMode::Continuous, 20 * SEC);
    assert_eq!(app.get_next_matching_mp3_file(2), None);
    assert!(matches!(app.update(30 * SEC), UpdateAction::Stopped));
    assert!(!app.has_current_file());
    assert_eq!(app.get_next_matching_mp3_file(1), None);
}

#[test]
fn next_matching_skips_directories() {
    let mut app = App::new(vec![mp3("01 A.mp3"), dir("x"), mp3("02 A.mp3"), mp3("03 B.mp3")], "/m".to_string()).unwrap();
    assert_eq!(app.play_selected(), Some("/m/01 A.mp3".to_string()));
    assert_eq!(app.get_next_matching_mp3_file(0), Some(2));
    assert_eq!(app.get_next_matching_mp3_file(2), None);
    assert_eq!(app.get_next_matching_mp3_file(3), None);
}

#[test]
fn single_play_stops_after_one_track() {
    let mut app = sample();
    app.select_next();
    let path = app.play_selected().unwrap();
    app.prepare_play(Some(10 * SEC));
    app.start_play(path, PlaybackMode::Single, 0);
    assert!(matches!(app.update(11 * SEC), UpdateAction::Stopped));
}

#[test]
fn entries_show_play_state() {
    let mut app = sample();
    app.select_next();
    let path = app.play_selected().unwrap();
    app.prepare_play(Some(10 * SEC));
    app.start_play(path, PlaybackMode::Continuous, 0);
    let entries = app.list_entries();
    assert!(app.is_list_entry_playing(&entries[1], SEC));
    assert!(!app.is_list_entry_playing(&entries[2], SEC));
    assert_eq!(app.list_item_text(&entries[1], SEC), "\u{25B6}\u{FE0F} 01-02 Cinema.mp3");
    assert_eq!(app.list_item_text(&entries[0], SEC), "\u{1F4C1} April");
    assert_eq!(app.list_item_text(&entries[2], SEC), "   03 News.mp3");
    assert_eq!(app.current_file_name(SEC), "01 Cinema.mp3");
    assert_eq!(app.current_time_str(SEC * 65 / 10), "00:06");
    assert_eq!(app.total_time_str(), "00:10");
    assert_eq!(app.toggle_pause(2 * SEC), SinkAction::Pause);
    assert!(!app.is_playing(3 * SEC));
}

#[test]
fn quit_sets_flag() {
    let mut app = sample();
    app.quit();
    assert!(app.should_quit());
}

#[test]
fn text_helpers() {
    assert_eq!(format_minutes_seconds(0), "00:00");
    assert_eq!(format_minutes_seconds(65), "01:05");
    assert_eq!(format_minutes_seconds(6000), "100:00");
    assert_eq!(decimal_string(1234567890), "1234567890");
    assert_eq!(progress_bar(0), "░░░░░░░░░░");
    assert_eq!(progress_bar(3), "■■■░░░░░░░");
    assert_eq!(progress_bar(10), "■■■■■■■■■■");
}

#[test]
fn slots_keep_selection_in_middle() {
    assert_eq!(visible_slot_indices(0, 0), [None, None, None]);
    assert_eq!(visible_slot_indices(0, 1), [None, Some(0), None]);
    assert_eq!(visible_slot_indices(1, 2), [Some(0), Some(1), Some(0)]);
    assert_eq!(visible_slot_indices(0, 5), [Some(4), Some(0), Some(1)]);
    assert_eq!(visible_slot_indices(4, 5), [Some(3), Some(4), Some(0)]);
}

#[test]
fn scan_helpers() {
    assert!(is_mp3_extension("mp3"));
    assert!(is_mp3_extension("MP3"));
    assert!(is_mp3_extension("Mp3"));
    assert!(!is_mp3_extension("mp4"));
    assert_eq!(classify_entry(true, false, None), Some(FileType::Directory));
    assert_eq!(classify_entry(false, true, Some("MP3")), Some(FileType::Mp3File));
    assert_eq!(classify_entry(false, true, Some("wav")), None);
    assert_eq!(classify_entry(false, true, None), None);
    assert_eq!(classify_entry(false, false, Some("mp3")), None);
    let sorted = sort_files(vec![mp3("b.mp3"), dir("Z"), mp3("A.mp3"), dir("B"), mp3("a.mp3")]);
    let names: Vec<&str> = sorted.iter().map(|f| f.name.as_str()).collect();
    assert_eq!(names, vec!["B", "Z", "A.mp3", "a.mp3", "b.mp3"]);
}

#[test]
fn key_bindings() {
    assert_eq!(command_for_key(Key::Char('q')), Command::Quit);
    assert_eq!(command_for_key(Key::Esc), Command::NavigateUp);
    assert_eq!(command_for_key(Key::Char('k')), Command::SelectPrev);
    assert_eq!(command_for_key(Key::Char('j')), Command::SelectNext);
    assert_eq!(command_for_key(Key::Char('[')), Command::PageUp);
    assert_eq!(command_for_key(Key::Char(']')), Command::PageDown);
    assert_eq!(command_for_key(Key::Char('p')), Command::PlaySelected(PlaybackMode::Continuous));
    assert_eq!(command_for_key(Key::Char('s')), Command::PlaySelected(PlaybackMode::Single));
    assert_eq!(command_for_key(Key::Char('r')), Command::PlaySelected(PlaybackMode::Repeat));
    assert_eq!(command_for_key(Key::Char('n')), Command::ToggleSpeedFilter);
    assert_eq!(command_for_key(Key::Char(' ')), Command::TogglePause);
    assert_eq!(command_for_key(Key::Enter), Command::Enter);
    assert_eq!(command_for_key(Key::Char('x')), Command::Nothing);
    assert_eq!(command_for_key(Key::Other), Command::Nothing);
}

#[test]
fn page_moves_go_three_entries_around_the_list() {
    let files: Vec<FileInfo> = (0..7).map(|i| dir(&format!("d{}", i))).collect();
    let mut app = App::new(files, "/m".to_string()).unwrap();
    app.page_down();
    assert_eq!(app.selected(), 3);
    app.page_down();
    assert_eq!(app.selected(), 6);
    app.page_down();
    assert_eq!(app.selected(), 2);
    app.page_up();
    assert_eq!(app.selected(), 6);
    app.page_up();
    app.page_up();
    assert_eq!(app.selected(), 0);
    app.page_up();
    assert_eq!(app.selected(), 4);
    let mut small = sample();
    small.page_down();
    assert_eq!(small.selected(), 0);
    small.select_next();
    small.page_up();
    assert_eq!(small.selected(), 1);
    let mut two = App::new(vec![dir("a"), dir("b")], "/m".to_string()).unwrap();
    two.page_down();
    assert_eq!(two.selected(), 1);
    two.page_up();
    assert_eq!(two.selected(), 0);
}

#[test]
fn playing_means_a_file_is_loaded() {
    let mut app = sample();
    assert!(!app.is_playing(0));
    app.select_next();
    let path = app.play_selected().unwrap();
    app.prepare_play(Some(10 * SEC));
    assert!(!app.is_playing(0));
    app.start_play(path, PlaybackMode::Single, 0);
    assert!(app.is_playing(SEC) && app.has_current_file());
}

#[test]
fn directories_are_tracked_by_the_state() {
    let mut app = sample();
    assert_eq!(app.root_directory(), "/m");
    assert_eq!(app.current_directory(), "/m");
    assert_eq!(app.current_directory_display(), "\u{1F4C1} ルート");
    assert_eq!(app.up_target(), None);
    let target = app.handle_enter_key().unwrap();
    app.navigate_to_directory(vec![mp3("01 X.mp3")], target);
    assert_eq!(app.current_directory(), "/m/April");
    assert_eq!(app.root_directory(), "/m");
    assert_eq!(app.selected(), 0);
    assert_eq!(app.current_directory_display(), "\u{1F4C1} April");
    assert_eq!(app.up_target(), Some(("/m".to_string(), "April".to_string())));
}

#[test]
fn next_matching_without_title_is_none_for_any_index() {
    let app = sample();
    assert_eq!(app.get_next_matching_mp3_file(usize::MAX), None);
    assert_eq!(app.get_next_matching_mp3_file(0), None);
}
