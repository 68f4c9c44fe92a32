use alloy_studio::workspace::{is_ignored, pick_root, FileEntry, RootLevel};

fn level(dir: &str, has_project_marker: bool, has_git: bool) -> RootLevel {
    RootLevel { dir: dir.to_string(), has_project_marker, has_git }
}

#[test]
fn test_detect_root_finds_build_gradle() {
    // /tmp/p/TeamCode/src, with build.gradle in /tmp/p.
    let levels = vec![
        level("/tmp/p/TeamCode/src", false, false),
        level("/tmp/p/TeamCode", false, false),
        level("/tmp/p", true, false),
        level("/tmp", false, false),
        level("/", false, false),
    ];
    assert_eq!(pick_root("/tmp/p/TeamCode/src", &levels), "/tmp/p");
}

#[test]
fn project_marker_beats_nearer_git() {
    let levels = vec![level("/a/b", false, true), level("/a", true, false)];
    assert_eq!(pick_root("/a/b/f.java", &levels), "/a");
    let levels = vec![level("/a/b", false, false), level("/a", false, true), level("/", false, true)];
    assert_eq!(pick_root("/a/b/f.java", &levels), "/a");
    let levels = vec![level("/a/b", false, false)];
    assert_eq!(pick_root("/a/b/f.java", &levels), "/a/b/f.java");
}

#[test]
fn ignored_names() {
    for n in [".git", "build", ".gradle", ".idea", ".DS_Store", "node_modules", "__pycache__"] {
        assert!(is_ignored(n), "{n}");
    }
    assert!(!is_ignored("src"));
    assert!(!is_ignored("Build"));
}

#[test]
fn file_entries_are_relative_to_the_root() {
    let e = FileEntry::from_walk("/ws", "/ws/src/Util.java", false, 2);
    assert_eq!(e.relative_path, "src/Util.java");
    assert_eq!(e.language_id.as_deref(), Some("java"));
    assert_eq!(e.depth, 2);
    let d = FileEntry::from_walk("/ws", "/ws/src", true, 1);
    assert!(d.is_dir);
    assert_eq!(d.language_id, None);
    let outside = FileEntry::from_walk("/ws", "/other/a.txt", false, 1);
    assert_eq!(outside.relative_path, "/other/a.txt");
    let root = FileEntry::from_walk("/ws", "/ws", true, 0);
    assert_eq!(root.relative_path, "");
}
