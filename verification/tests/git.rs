use alloy_studio::git::{
    classify_status, count_lines, diff_hunk_from_raw, diff_line_from_raw, file_diff_from_delta,
    file_status_of, is_head_branch, line_kind, stats_plan, BlameHunk, Branch, BranchList,
    CommitOptions, DiffLineKind, FileStatus, GitBlame, GitStatus, RawDiffHunk, RawDiffLine,
    RawFileDelta, RawStatusEntry, Repository, StatsPlan, StatusKind,
};

#[test]
fn status_classification() {
    assert_eq!(classify_status(1 << 15 | 1 << 7), (StatusKind::Conflicted, false));
    assert_eq!(classify_status(1 | 1 << 8), (StatusKind::Added, true));
    assert_eq!(classify_status(1 << 7), (StatusKind::Untracked, false));
    assert_eq!(classify_status(1 << 8), (StatusKind::Modified, false));
    assert_eq!(classify_status(1 << 14), (StatusKind::Ignored, false));
    assert_eq!(classify_status(0), (StatusKind::Modified, false));
}

fn status(path: &str, kind: StatusKind, staged: bool) -> FileStatus {
    FileStatus { path: path.into(), old_path: None, kind, staged, additions: 0, deletions: 0 }
}

#[test]
fn status_filters() {
    let st = GitStatus(vec![
        status("a", StatusKind::Modified, true),
        status("b", StatusKind::Modified, false),
        status("c", StatusKind::Untracked, false),
        status("d", StatusKind::Conflicted, false),
    ]);
    assert_eq!(st.staged().iter().map(|f| f.path.as_str()).collect::<Vec<_>>(), vec!["a"]);
    assert_eq!(st.unstaged().iter().map(|f| f.path.as_str()).collect::<Vec<_>>(), vec!["b", "d"]);
    assert_eq!(st.untracked().iter().map(|f| f.path.as_str()).collect::<Vec<_>>(), vec!["c"]);
    assert!(st.has_conflicts());
    assert_eq!(st.files().len(), 4);
}

#[test]
fn status_entries() {
    let unchanged = RawStatusEntry { bits: 0, path: Some("x".into()), staged_old_path: None, unstaged_old_path: None, stats: None };
    assert_eq!(file_status_of(&unchanged), None);
    let renamed = RawStatusEntry {
        bits: 1 << 3,
        path: Some("new.rs".into()),
        staged_old_path: None,
        unstaged_old_path: Some("old.rs".into()),
        stats: Some((3, 1)),
    };
    let f = file_status_of(&renamed).unwrap();
    assert_eq!(f.kind, StatusKind::Renamed);
    assert!(f.staged);
    assert_eq!(f.old_path.as_deref(), Some("old.rs"));
    assert_eq!((f.additions, f.deletions), (3, 1));
    assert_eq!(stats_plan(true, false), StatsPlan::CountNew);
    assert_eq!(stats_plan(false, true), StatsPlan::CountOld);
    assert_eq!(stats_plan(true, true), StatsPlan::Unknown);
    assert_eq!(stats_plan(false, false), StatsPlan::DiffBlobs);
}

#[test]
fn line_counting() {
    assert_eq!(count_lines(b""), 0);
    assert_eq!(count_lines(b"a\nb\n"), 2);
    assert_eq!(count_lines(b"a\nb"), 2);
    assert_eq!(count_lines(b"\n"), 1);
}

#[test]
fn branches_and_heads() {
    let b = |name: &str, is_head: bool| Branch {
        name: name.into(),
        is_remote: false,
        is_head,
        upstream: None,
        commit_id: "abc".into(),
        commit_summary: String::new(),
    };
    let list = BranchList(vec![b("dev", false), b("main", true), b("x", true)]);
    assert_eq!(list.current().unwrap().name, "main");
    assert!(BranchList(vec![b("dev", false)]).current().is_none());
    assert!(is_head_branch("abc", Some("abc"), false));
    assert!(!is_head_branch("abc", Some("abc"), true));
    assert!(!is_head_branch("abc", None, false));
    assert_eq!(Repository::at("/r".into()).path(), "/r");
}

#[test]
fn blame_lines_follow_hunks() {
    let hunks = vec![
        BlameHunk { commit_id: "0123456789".into(), author: None, email: Some("e@x".into()), timestamp: 5, summary: None, lines_in_hunk: 2 },
        BlameHunk { commit_id: "abc".into(), author: Some("Ann".into()), email: None, timestamp: 9, summary: Some("fix".into()), lines_in_hunk: 1 },
    ];
    let blame = GitBlame::from_hunks(&hunks);
    let got: Vec<(u32, &str, &str, &str)> = blame.0.iter().map(|l| (l.line_no, l.commit_id.as_str(), l.author.as_str(), l.summary.as_str())).collect();
    assert_eq!(got, vec![(1, "0123456", "Unknown", ""), (2, "0123456", "Unknown", ""), (3, "abc", "Ann", "fix")]);
}

#[test]
fn diff_conversion() {
    assert_eq!(line_kind('+'), DiffLineKind::Added);
    assert_eq!(line_kind('\\'), DiffLineKind::NoNewline);
    assert_eq!(line_kind(' '), DiffLineKind::Context);
    let l = diff_line_from_raw(&RawDiffLine { origin: '-', old_lineno: Some(4), new_lineno: None, content: b"gone\n".to_vec() });
    assert_eq!(l.kind, DiffLineKind::Removed);
    assert_eq!(l.content, "gone\n");
    let bad = diff_line_from_raw(&RawDiffLine { origin: '+', old_lineno: None, new_lineno: Some(1), content: vec![0xff] });
    assert_eq!(bad.content, "");
    let h = diff_hunk_from_raw(&RawDiffHunk { header: b"@@ -1 +1 @@  \n".to_vec(), old_start: 1, old_lines: 1, new_start: 1, new_lines: 1, lines: vec![] });
    assert_eq!(h.header, "@@ -1 +1 @@");
    let d = file_diff_from_delta(&RawFileDelta {
        new_path: None,
        old_path: Some("o.txt".into()),
        new_is_binary: false,
        old_is_binary: false,
        binary_flag: true,
        additions: 2,
        deletions: 3,
        hunks: vec![],
    });
    assert!(d.is_binary);
    assert_eq!((d.additions, d.deletions), (2, 3));
}

#[test]
fn diff_lines_keep_their_order_and_numbers() {
    let raw_lines = vec![
        RawDiffLine { origin: ' ', old_lineno: Some(1), new_lineno: Some(1), content: b"a\n".to_vec() },
        RawDiffLine { origin: '-', old_lineno: Some(2), new_lineno: None, content: b"b\n".to_vec() },
        RawDiffLine { origin: '+', old_lineno: None, new_lineno: Some(2), content: b"c\n".to_vec() },
    ];
    let d = file_diff_from_delta(&RawFileDelta {
        new_path: Some("n.txt".into()),
        old_path: Some("n.txt".into()),
        new_is_binary: false,
        old_is_binary: false,
        binary_flag: false,
        additions: 1,
        deletions: 1,
        hunks: vec![RawDiffHunk { header: b"@@ -1,2 +1,2 @@\n".to_vec(), old_start: 1, old_lines: 2, new_start: 1, new_lines: 2, lines: raw_lines }],
    });
    assert_eq!(d.path, "n.txt");
    assert!(d.old_path.is_none());
    let lines = &d.hunks[0].lines;
    assert_eq!(lines.len(), 3);
    assert_eq!((lines[0].kind, lines[0].content.as_str()), (DiffLineKind::Context, "a\n"));
    assert_eq!((lines[1].kind, lines[1].old_lineno, lines[1].new_lineno), (DiffLineKind::Removed, Some(2), None));
    assert_eq!((lines[2].kind, lines[2].content.as_str(), lines[2].new_lineno), (DiffLineKind::Added, "c\n", Some(2)));
}

#[test]
fn commit_identity() {
    let opts = CommitOptions { message: "m".into(), paths: vec![], author_name: None, author_email: Some("me@x".into()) };
    assert_eq!(
        opts.author_identity(Some("Cfg".into()), Some("cfg@x".into())),
        ("Cfg".to_string(), "me@x".to_string())
    );
    assert_eq!(opts.author_identity(None, None).0, "Alloy Studio");
}
