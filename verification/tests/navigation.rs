use play_cnnee::nav::{current_directory_display, navigate_up_target};

#[test]
fn going_up_stops_at_the_root() {
    assert_eq!(
        navigate_up_target("/music/April/Week1", "/music"),
        Some(("/music/April".to_string(), "Week1".to_string()))
    );
    assert_eq!(
        navigate_up_target("/music/April", "/music"),
        Some(("/music".to_string(), "April".to_string()))
    );
    assert_eq!(navigate_up_target("/music", "/music"), None);
    assert_eq!(navigate_up_target("/", "/"), None);
}

#[test]
fn directory_display_is_relative_to_root() {
    assert_eq!(current_directory_display("/music", "/music"), "\u{1F4C1} ルート");
    assert_eq!(current_directory_display("/music/April", "/music"), "\u{1F4C1} April");
    assert_eq!(current_directory_display("/music/April/W1", "/music"), "\u{1F4C1} April/W1");
    assert_eq!(current_directory_display("/other", "/music"), "\u{1F4C1} /other");
}
