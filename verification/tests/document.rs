use alloy_studio::document::Document;
use alloy_studio::types::{Position, Range, TextEdit};

fn fake_path(name: &str) -> String {
    format!("/tmp/{name}")
}

#[test]
fn test_from_text_language_java() {
    let doc = Document::from_text(fake_path("Foo.java"), "class Foo {}".into(), 1);
    assert_eq!(doc.language_id, "java");
    assert_eq!(doc.version, 1);
}

#[test]
fn test_apply_full_text() {
    let mut doc = Document::from_text(fake_path("Main.java"), "old".into(), 0);
    doc.apply_full_text("new content", 1);
    assert_eq!(doc.buffer.to_string(), "new content");
    assert_eq!(doc.version, 1);
}

#[test]
fn test_apply_edits() {
    let mut doc = Document::from_text(fake_path("Test.java"), "hello world\n".into(), 0);
    let edit = TextEdit {
        range: Range {
            start: Position::new(0, 6),
            end: Position::new(0, 11),
        },
        new_text: "Rust".into(),
    };
    doc.apply_edits(&[edit], 1).unwrap();
    assert_eq!(doc.buffer.to_string(), "hello Rust\n");
    assert_eq!(doc.version, 1);
}

#[test]
fn test_uri_round_trip() {
    let path = "/home/user/project/src/Main.java".to_string();
    let uri = Document::path_to_uri(&path);
    assert!(uri.starts_with("file://"));
    let back = Document::uri_to_path(&uri).unwrap();
    assert_eq!(back, path);
}

#[test]
fn test_language_id_for_path() {
    assert_eq!(Document::language_id_for_path("Foo.java"), "java");
    assert_eq!(Document::language_id_for_path("build.gradle"), "groovy");
    assert_eq!(Document::language_id_for_path("AndroidManifest.xml"), "xml");
    assert_eq!(Document::language_id_for_path("config.txt"), "plaintext");
}

// --- Further cases ------------------------------------------------------------

#[test]
fn edits_apply_from_the_end_backwards() {
    let mut doc = Document::from_text(fake_path("A.kt"), "abc\ndef\n".into(), 0);
    assert_eq!(doc.language_id, "kotlin");
    let first = TextEdit { range: Range::on_line(0, 0, 1), new_text: "X".into() };
    let second = TextEdit { range: Range::on_line(1, 1, 2), new_text: "YY".into() };
    // Given in document order; applied last-first so both offsets stay valid.
    doc.apply_edits(&[first, second], 7).unwrap();
    assert_eq!(doc.buffer.to_string(), "Xbc\ndYYf\n");
    assert_eq!(doc.version, 7);
}

#[test]
fn failed_edit_keeps_version() {
    let mut doc = Document::from_text(fake_path("n"), "one\n".into(), 3);
    let bad = TextEdit { range: Range::on_line(9, 0, 1), new_text: "z".into() };
    assert!(doc.apply_edits(&[bad], 4).is_err());
    assert_eq!(doc.version, 3);
    assert_eq!(doc.buffer.to_string(), "one\n");
    assert_eq!(doc.language_id, "plaintext");
}

#[test]
fn uri_without_scheme_is_rejected() {
    assert_eq!(Document::uri_to_path("http://x"), None);
    assert_eq!(Document::uri_to_path("file:///a b"), Some("/a b".to_string()));
    assert_eq!(Document::language_id_for_path("x.yml"), "yaml");
    assert_eq!(Document::language_id_for_path(".gradle"), "plaintext");
}

#[test]
fn selections_start_at_origin() {
    let mut doc = Document::from_text(fake_path("S.java"), "x".into(), 0);
    assert_eq!(doc.selections().all().len(), 1);
    doc.selections_mut().reduce_to_primary();
    assert_eq!(doc.selections().primary().active.line, 0);
}
