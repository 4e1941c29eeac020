use audio_player::discovery::{discover, get_file_paths, is_mp3_path, FsEntry};

fn file(p: &str) -> FsEntry {
    FsEntry::File { path: p.to_string() }
}

fn sample_dir() -> FsEntry {
    FsEntry::Dir {
        path: "music".to_string(),
        entries: vec![
            file("music/a.mp3"),
            file("music/b.mp3"),
            file("music/notes.txt"),
            FsEntry::Dir {
                path: "music/sub".to_string(),
                entries: vec![file("music/sub/c.mp3")],
            },
        ],
    }
}

#[test]
fn flat_discovery_keeps_direct_mp3_children_only() {
    let tracks = get_file_paths(&sample_dir(), false);
    assert_eq!(
        tracks,
        vec!["music/a.mp3".to_string(), "music/b.mp3".to_string()]
    );
}

#[test]
fn recursive_discovery_reaches_subdirectories() {
    let tracks = get_file_paths(&sample_dir(), true);
    assert_eq!(
        tracks,
        vec![
            "music/a.mp3".to_string(),
            "music/b.mp3".to_string(),
            "music/sub/c.mp3".to_string()
        ]
    );
}

#[test]
fn recursive_count_is_sum_over_levels() {
    let deep = FsEntry::Dir {
        path: "top".to_string(),
        entries: vec![
            file("top/one.mp3"),
            FsEntry::Dir {
                path: "top/mid".to_string(),
                entries: vec![
                    file("top/mid/two.mp3"),
                    FsEntry::Dir {
                        path: "top/mid/leaf".to_string(),
                        entries: vec![file("top/mid/leaf/three.mp3"), file("top/mid/leaf/readme")],
                    },
                ],
            },
        ],
    };
    assert_eq!(get_file_paths(&deep, true).len(), 3);
    assert_eq!(get_file_paths(&deep, false).len(), 1);
}

#[test]
fn non_directory_is_returned_alone_whatever_its_extension() {
    let plain = file("notes.txt");
    assert_eq!(get_file_paths(&plain, false), vec!["notes.txt".to_string()]);
    assert_eq!(get_file_paths(&plain, true), vec!["notes.txt".to_string()]);
    let song = file("song.mp3");
    assert_eq!(get_file_paths(&song, false), vec!["song.mp3".to_string()]);
}

#[test]
fn skipped_entries_are_reported_in_order() {
    let flat = discover(&sample_dir(), false);
    assert_eq!(
        flat.skipped,
        vec!["music/notes.txt".to_string(), "music/sub".to_string()]
    );
    let deep = discover(&sample_dir(), true);
    assert_eq!(deep.skipped, vec!["music/notes.txt".to_string()]);
}

#[test]
fn empty_directory_yields_nothing() {
    let dir = FsEntry::Dir {
        path: "void".to_string(),
        entries: vec![],
    };
    assert_eq!(get_file_paths(&dir, true), Vec::<String>::new());
}

#[test]
fn extension_match_is_case_sensitive_and_reads_the_file_name() {
    assert!(is_mp3_path("a.mp3"));
    assert!(is_mp3_path("dir/x.tar.mp3"));
    assert!(!is_mp3_path("a.MP3"));
    assert!(!is_mp3_path(".mp3"));
    assert!(!is_mp3_path("dir/.mp3"));
    assert!(!is_mp3_path("amp3"));
    assert!(!is_mp3_path("dir.mp3/x"));
    assert!(!is_mp3_path("a.mp3 "));
    assert!(is_mp3_path("..mp3"));
}
