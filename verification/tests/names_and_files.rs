use play_cnnee::files::{build_file_list_entries, build_mp3_display_name, FileInfo, FileListEntry, FileType};
use play_cnnee::names::{number_prefix, split_number_prefix, strip_number_prefix};

fn mp3(name: &str) -> FileInfo {
    FileInfo {
        path: name.to_string(),
        name: name.to_string(),
        file_type: FileType::Mp3File,
    }
}

fn dir(name: &str) -> FileInfo {
    FileInfo {
        path: name.to_string(),
        name: name.to_string(),
        file_type: FileType::Directory,
    }
}

#[test]
fn strips_ascii_number_followed_by_full_width_space() {
    assert_eq!(
        strip_number_prefix("01\u{3000}Cinema Update.mp3"),
        "Cinema Update.mp3"
    );
}

#[test]
fn strips_ascii_number_followed_by_half_width_space() {
    assert_eq!(
        strip_number_prefix("33 News Selection.mp3"),
        "News Selection.mp3"
    );
}

#[test]
fn keeps_names_without_number_prefix() {
    assert_eq!(
        strip_number_prefix("Cinema Update.mp3"),
        "Cinema Update.mp3"
    );
}

#[test]
fn keeps_leading_digits_without_separator() {
    assert_eq!(strip_number_prefix("360.mp3"), "360.mp3");
}

#[test]
fn groups_consecutive_mp3_files_with_same_playback_title() {
    let files = vec![
        FileInfo {
            path: "01 Cinema Update.mp3".to_string(),
            name: "01 Cinema Update.mp3".to_string(),
            file_type: FileType::Mp3File,
        },
        FileInfo {
            path: "02 Cinema Update.mp3".to_string(),
            name: "02 Cinema Update.mp3".to_string(),
            file_type: FileType::Mp3File,
        },
        FileInfo {
            path: "03 News Selection.mp3".to_string(),
            name: "03 News Selection.mp3".to_string(),
            file_type: FileType::Mp3File,
        },
    ];

    assert_eq!(
        build_file_list_entries(&files),
        vec![
            FileListEntry {
                file_index: 0,
                file_count: 2,
                display_name: "01-02 Cinema Update.mp3".to_string(),
                file_type: FileType::Mp3File,
            },
            FileListEntry {
                file_index: 2,
                file_count: 1,
                display_name: "03 News Selection.mp3".to_string(),
                file_type: FileType::Mp3File,
            },
        ]
    );
}

#[test]
fn keeps_directories_as_individual_entries() {
    let files = vec![
        FileInfo {
            path: "April".to_string(),
            name: "April".to_string(),
            file_type: FileType::Directory,
        },
        FileInfo {
            path: "01 Cinema Update.mp3".to_string(),
            name: "01 Cinema Update.mp3".to_string(),
            file_type: FileType::Mp3File,
        },
    ];

    assert_eq!(
        build_file_list_entries(&files),
        vec![
            FileListEntry {
                file_index: 0,
                file_count: 1,
                display_name: "April".to_string(),
                file_type: FileType::Directory,
            },
            FileListEntry {
                file_index: 1,
                file_count: 1,
                display_name: "01 Cinema Update.mp3".to_string(),
                file_type: FileType::Mp3File,
            },
        ]
    );
}

#[test]
fn split_gives_number_and_title() {
    assert_eq!(split_number_prefix("01 Cinema.mp3"), Some(("01", "Cinema.mp3")));
    assert_eq!(split_number_prefix("007 \t\u{3000}x"), Some(("007", "x")));
    assert_eq!(split_number_prefix("12 "), Some(("12", "")));
    assert_eq!(split_number_prefix("12"), None);
    assert_eq!(split_number_prefix(""), None);
    assert_eq!(split_number_prefix(" 12 x"), None);
    assert_eq!(split_number_prefix("１２ x"), None);
}

#[test]
fn number_prefix_is_the_digits() {
    assert_eq!(number_prefix("05 Talk.mp3"), Some("05"));
    assert_eq!(number_prefix("Talk.mp3"), None);
    assert_eq!(number_prefix("05Talk.mp3"), None);
}

#[test]
fn file_info_new_takes_last_path_component() {
    let f = FileInfo::new("/music/April/01 Cinema Update.mp3".to_string(), FileType::Mp3File);
    assert_eq!(f.name, "01 Cinema Update.mp3");
    assert_eq!(f.path, "/music/April/01 Cinema Update.mp3");
    assert_eq!(f.file_type, FileType::Mp3File);
    let d = FileInfo::new("/music/April".to_string(), FileType::Directory);
    assert_eq!(d.name, "April");
    let root = FileInfo::new("/".to_string(), FileType::Directory);
    assert_eq!(root.name, "Unknown");
    let up = FileInfo::new("music/..".to_string(), FileType::Directory);
    assert_eq!(up.name, "Unknown");
}

#[test]
fn display_name_and_playback_title() {
    let f = mp3("01\u{3000}Cinema Update.mp3");
    assert_eq!(f.display_name(), "01\u{3000}Cinema Update.mp3");
    assert_eq!(f.playback_title(), "Cinema Update.mp3");
    assert_eq!(mp3("Intro.mp3").playback_title(), "Intro.mp3");
}

#[test]
fn mp3_display_name_variants() {
    let files = vec![mp3("01 A.mp3"), mp3("02 A.mp3"), mp3("A.mp3"), mp3("05 B.mp3"), mp3("05 B.mp3")];
    assert_eq!(build_mp3_display_name(&files, 0, 1, "A.mp3"), "01 A.mp3");
    assert_eq!(build_mp3_display_name(&files, 0, 2, "A.mp3"), "01-02 A.mp3");
    assert_eq!(build_mp3_display_name(&files, 2, 1, "A.mp3"), "A.mp3");
    assert_eq!(build_mp3_display_name(&files, 1, 2, "A.mp3"), "02 A.mp3");
    assert_eq!(build_mp3_display_name(&files, 3, 2, "B.mp3"), "05 B.mp3");
}

#[test]
fn grouping_covers_every_file_once() {
    let files = vec![
        dir("April"),
        dir("May"),
        mp3("01 Cinema Update.mp3"),
        mp3("02 Cinema Update.mp3"),
        mp3("03 Cinema Update.mp3"),
        mp3("04 News.mp3"),
        mp3("05 Cinema Update.mp3"),
        mp3("Cinema Update.mp3"),
    ];
    let entries = build_file_list_entries(&files);
    let summary: Vec<(usize, usize, String)> = entries
        .iter()
        .map(|e| (e.file_index, e.file_count, e.display_name.clone()))
        .collect();
    assert_eq!(
        summary,
        vec![
            (0, 1, "April".to_string()),
            (1, 1, "May".to_string()),
            (2, 3, "01-03 Cinema Update.mp3".to_string()),
            (5, 1, "04 News.mp3".to_string()),
            (6, 2, "05 Cinema Update.mp3".to_string()),
        ]
    );
    let mut next = 0;
    for e in &entries {
        assert_eq!(e.file_index, next);
        assert!(e.file_count >= 1);
        next += e.file_count;
    }
    assert_eq!(next, files.len());
}

#[test]
fn grouping_of_nothing_is_empty() {
    assert_eq!(build_file_list_entries(&[]), Vec::<FileListEntry>::new());
}

#[test]
fn split_parts_reassemble_the_name() {
    for name in ["01 Cinema.mp3", "12\u{3000}\u{3000}News", "7\tx", "360.mp3", "abc", "09 "] {
        match split_number_prefix(name) {
            Some((number, title)) => {
                assert!(!number.is_empty() && number.chars().all(|c| c.is_ascii_digit()));
                let gap = &name[number.len()..name.len() - title.len()];
                assert!(!gap.is_empty() && gap.chars().all(char::is_whitespace));
                assert_eq!(format!("{}{}{}", number, gap, title), name);
                assert!(!title.starts_with(char::is_whitespace));
            }
            None => assert_eq!(strip_number_prefix(name), name),
        }
        assert!(name.ends_with(strip_number_prefix(name)));
    }
}

#[test]
fn grouping_splits_at_a_directory() {
    let a = vec![mp3("01 A.mp3"), mp3("02 A.mp3"), dir("x")];
    let b = vec![mp3("03 A.mp3"), mp3("04 B.mp3")];
    let whole: Vec<FileInfo> = a.iter().chain(b.iter()).cloned().collect();
    let mut expected = build_file_list_entries(&a);
    for e in build_file_list_entries(&b) {
        expected.push(FileListEntry { file_index: e.file_index + a.len(), ..e });
    }
    assert_eq!(build_file_list_entries(&whole), expected);
    let c = vec![dir("y"), mp3("05 A.mp3")];
    let whole2: Vec<FileInfo> = b.iter().chain(c.iter()).cloned().collect();
    let mut expected2 = build_file_list_entries(&b);
    for e in build_file_list_entries(&c) {
        expected2.push(FileListEntry { file_index: e.file_index + b.len(), ..e });
    }
    assert_eq!(build_file_list_entries(&whole2), expected2);
}
