use alloy_studio::conflict::{apply_resolutions, parse_conflict_markers, ConflictFile, ResolutionChoice};

const CONFLICT_TEXT: &str = "\
line 1
<<<<<<< HEAD
our code A
our code B
=======
their code X
their code Y
>>>>>>> feature-branch
line 9
";

fn parsed(text: &str) -> ConflictFile {
    ConflictFile::from_text("conflicted.java".to_string(), text)
}

#[test]
fn parse_finds_one_hunk() {
    let cf = parsed(CONFLICT_TEXT);
    assert_eq!(cf.hunks.len(), 1);
}

#[test]
fn parse_extracts_labels() {
    let cf = parsed(CONFLICT_TEXT);
    let hunk = &cf.hunks[0];
    assert_eq!(hunk.ours.label, "HEAD");
    assert_eq!(hunk.theirs.label, "feature-branch");
}

#[test]
fn parse_extracts_content() {
    let cf = parsed(CONFLICT_TEXT);
    let hunk = &cf.hunks[0];
    assert!(hunk.ours.content.contains("our code A"));
    assert!(hunk.ours.content.contains("our code B"));
    assert!(hunk.theirs.content.contains("their code X"));
    assert!(hunk.theirs.content.contains("their code Y"));
}

#[test]
fn parse_line_numbers() {
    let cf = parsed(CONFLICT_TEXT);
    let hunk = &cf.hunks[0];
    assert_eq!(hunk.start_line, 2);
    assert_eq!(hunk.end_line, 8);
}

#[test]
fn resolve_take_ours_keeps_ours() {
    let cf = parsed(CONFLICT_TEXT);
    let resolved = cf.resolve_take_ours(CONFLICT_TEXT);
    assert!(resolved.contains("our code A"));
    assert!(!resolved.contains("their code X"));
    assert!(resolved.contains("line 1"));
    assert!(resolved.contains("line 9"));
}

#[test]
fn resolve_take_theirs_keeps_theirs() {
    let cf = parsed(CONFLICT_TEXT);
    let resolved = cf.resolve_take_theirs(CONFLICT_TEXT);
    assert!(!resolved.contains("our code A"));
    assert!(resolved.contains("their code X"));
}

#[test]
fn resolve_mixed_custom() {
    let cf = parsed(CONFLICT_TEXT);
    let choices = vec![ResolutionChoice::Custom("custom resolution\n".to_string())];
    let resolved = cf.resolve_mixed(CONFLICT_TEXT, &choices);
    assert!(resolved.contains("custom resolution"));
    assert!(!resolved.contains("our code A"));
    assert!(!resolved.contains("their code X"));
}

#[test]
fn parse_two_hunks() {
    let text = "\
line 1
<<<<<<< HEAD
ours 1
=======
theirs 1
>>>>>>> branch
line 6
<<<<<<< HEAD
ours 2
=======
theirs 2
>>>>>>> branch
line 12
";
    let cf = parsed(text);
    assert_eq!(cf.hunks.len(), 2);
    assert_eq!(cf.hunks[0].index, 0);
    assert_eq!(cf.hunks[1].index, 1);
}

#[test]
fn parse_no_hunks_clean_file() {
    let text = "just a clean file\nno conflicts here\n";
    let cf = parsed(text);
    assert!(cf.hunks.is_empty());
}

#[test]
fn resolution_output_is_exact() {
    let cf = parsed(CONFLICT_TEXT);
    assert_eq!(cf.resolve_take_ours(CONFLICT_TEXT), "line 1\nour code A\nour code B\nline 9\n");
    assert_eq!(cf.resolve_take_theirs(CONFLICT_TEXT), "line 1\ntheir code X\ntheir code Y\nline 9\n");
    assert_eq!(
        cf.resolve_mixed(CONFLICT_TEXT, &[ResolutionChoice::Custom(String::new())]),
        "line 1\nline 9\n"
    );
}

#[test]
fn blank_labels_default() {
    let text = "<<<<<<<\na\r\n=======\nb\n>>>>>>>   \n";
    let hunks = parse_conflict_markers(text);
    assert_eq!(hunks.len(), 1);
    assert_eq!(hunks[0].ours.label, "HEAD");
    assert_eq!(hunks[0].theirs.label, "theirs");
    assert_eq!(hunks[0].ours.content, "a");
    assert_eq!(hunks[0].theirs.content, "b");
}

#[test]
fn unterminated_block_is_not_a_hunk() {
    let text = "<<<<<<< HEAD\nours\n=======\ntheirs\n";
    assert!(parse_conflict_markers(text).is_empty());
}

#[test]
fn missing_choices_default_to_ours() {
    let text = "<<<<<<< a\n1\n=======\n2\n>>>>>>> b\n<<<<<<< a\n3\n=======\n4\n>>>>>>> b\n";
    let hunks = parse_conflict_markers(text);
    let out = apply_resolutions(text, &hunks, &[ResolutionChoice::Theirs]);
    assert_eq!(out, "2\n3\n");
}
