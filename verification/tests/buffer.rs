use alloy_studio::buffer::{Buffer, EditOp, PositionOutOfRange};
use alloy_studio::types::{Position, Range, TextEdit};

fn buf(s: &str) -> Buffer {
    Buffer::from_str(s)
}

fn op(byte_start: usize, byte_end: usize, old_text: &str, new_text: &str) -> EditOp {
    EditOp {
        byte_start,
        byte_end,
        old_text: old_text.to_string(),
        new_text: new_text.to_string(),
    }
}

#[test]
fn test_insert_at_start() {
    let mut b = buf("world");
    b.apply_edit(EditOp {
        byte_start: 0,
        byte_end: 0,
        old_text: String::new(),
        new_text: "hello ".to_string(),
    });
    assert_eq!(b.to_string(), "hello world");
}

#[test]
fn test_delete_range() {
    let mut b = buf("hello world");
    b.apply_edit(EditOp {
        byte_start: 5,
        byte_end: 11,
        old_text: " world".to_string(),
        new_text: String::new(),
    });
    assert_eq!(b.to_string(), "hello");
}

#[test]
fn test_replace_range() {
    let mut b = buf("foo bar baz");
    b.apply_edit(EditOp {
        byte_start: 4,
        byte_end: 7,
        old_text: "bar".to_string(),
        new_text: "qux".to_string(),
    });
    assert_eq!(b.to_string(), "foo qux baz");
}

#[test]
fn test_dirty_and_version() {
    let mut b = buf("abc");
    assert!(!b.is_dirty());
    assert_eq!(b.version(), 0);

    b.apply_edit(EditOp {
        byte_start: 3,
        byte_end: 3,
        old_text: String::new(),
        new_text: "d".to_string(),
    });
    assert!(b.is_dirty());
    assert_eq!(b.version(), 1);

    b.mark_saved();
    assert!(!b.is_dirty());
}

#[test]
fn test_undo_single() {
    let mut b = buf("hello");
    b.apply_edit(EditOp {
        byte_start: 5,
        byte_end: 5,
        old_text: String::new(),
        new_text: " world".to_string(),
    });
    assert_eq!(b.to_string(), "hello world");

    let undone = b.undo();
    assert!(undone.is_some());
    assert_eq!(b.to_string(), "hello");
}

#[test]
fn test_redo_after_undo() {
    let mut b = buf("hello");
    b.apply_edit(EditOp {
        byte_start: 5,
        byte_end: 5,
        old_text: String::new(),
        new_text: " world".to_string(),
    });
    b.undo();
    assert_eq!(b.to_string(), "hello");

    b.redo();
    assert_eq!(b.to_string(), "hello world");
}

#[test]
fn test_undo_clears_redo_on_new_edit() {
    let mut b = buf("abc");
    b.apply_edit(EditOp {
        byte_start: 3,
        byte_end: 3,
        old_text: String::new(),
        new_text: "d".to_string(),
    });
    b.undo();

    b.apply_edit(EditOp {
        byte_start: 3,
        byte_end: 3,
        old_text: String::new(),
        new_text: "X".to_string(),
    });
    let re = b.redo();
    assert!(re.is_none());
}

#[test]
fn test_undo_empty_history() {
    let mut b = buf("hello");
    assert!(b.undo().is_none());
}

#[test]
fn test_position_to_offset_simple() {
    let b = buf("hello\nworld\n");
    let off = b.position_to_offset(Position::new(1, 0)).unwrap();
    assert_eq!(off, 6);
}

#[test]
fn test_position_to_offset_col() {
    let b = buf("hello\nworld\n");
    let off = b.position_to_offset(Position::new(1, 3)).unwrap();
    assert_eq!(off, 9);
}

#[test]
fn test_offset_to_position_roundtrip() {
    let b = buf("line0\nline1\nline2\n");
    for byte in [0usize, 3, 6, 9, 12] {
        let pos = b.offset_to_position(byte);
        let back = b.position_to_offset(pos).unwrap();
        assert_eq!(back, byte, "roundtrip failed for byte={byte}");
    }
}

#[test]
fn test_position_to_offset_end_of_line() {
    let b = buf("hi\nthere\n");
    let off = b.position_to_offset(Position::new(0, 2)).unwrap();
    assert_eq!(off, 2);
}

#[test]
fn test_line_count() {
    let b = buf("a\nb\nc\n");
    assert!(b.line_count() >= 3);
}

#[test]
fn test_line() {
    let b = buf("alpha\nbeta\ngamma\n");
    assert_eq!(b.line(0).unwrap().trim_end(), "alpha");
    assert_eq!(b.line(1).unwrap().trim_end(), "beta");
    assert!(b.line(100).is_none());
}

#[test]
fn test_apply_text_edit_replace() {
    let mut b = buf("hello world\n");
    let edit = TextEdit {
        range: Range {
            start: Position::new(0, 6),
            end: Position::new(0, 11),
        },
        new_text: "Rust".to_string(),
    };
    b.apply_text_edit(&edit).unwrap();
    assert_eq!(b.to_string(), "hello Rust\n");
}

// --- Further cases ------------------------------------------------------------

#[test]
fn undo_restores_multibyte_replacement() {
    let mut b = buf("héllo wörld");
    // "ö" is two bytes; replace "wörld" (bytes 7..13) with "x".
    b.apply_edit(op(7, 13, "wörld", "x"));
    assert_eq!(b.to_string(), "héllo x");
    let undone = b.undo().unwrap();
    // The inverse removes the inserted "x" (bytes 7..8) and puts back "wörld".
    assert_eq!((undone.byte_start, undone.byte_end), (7, 8));
    assert_eq!(undone.old_text, "x");
    assert_eq!(undone.new_text, "wörld");
    assert_eq!(b.to_string(), "héllo wörld");
    b.redo();
    assert_eq!(b.to_string(), "héllo x");
    assert_eq!(b.version(), 3);
}

#[test]
fn apply_text_edit_then_undo_restores() {
    let mut b = buf("one\ntwo\nthree\n");
    let edit = TextEdit {
        range: Range { start: Position::new(1, 0), end: Position::new(2, 2) },
        new_text: "2\n3".to_string(),
    };
    b.apply_text_edit(&edit).unwrap();
    assert_eq!(b.to_string(), "one\n2\n3ree\n");
    b.undo();
    assert_eq!(b.to_string(), "one\ntwo\nthree\n");
}

#[test]
fn position_out_of_range_is_rejected() {
    let b = buf("a\nb");
    assert_eq!(b.line_count(), 2);
    assert_eq!(
        b.position_to_offset(Position::new(5, 0)),
        Err(PositionOutOfRange { line: 5, character: 0, line_count: 2 })
    );
    assert_eq!(b.position_to_offset(Position::new(2, 0)), Ok(3));
    assert!(b.position_to_offset(Position::new(2, 1)).is_err());
}

#[test]
fn column_past_line_end_is_rejected() {
    let b = buf("ab\r\ncd");
    assert_eq!(b.position_to_offset(Position::new(0, 2)), Ok(2));
    assert_eq!(
        b.position_to_offset(Position::new(0, 10)),
        Err(PositionOutOfRange { line: 0, character: 10, line_count: 2 })
    );
    assert_eq!(b.position_to_offset(Position::new(1, 2)), Ok(6));
    assert!(b.position_to_offset(Position::new(1, 3)).is_err());
    let t = buf("hi\nthere\n");
    assert_eq!(t.position_to_offset(Position::new(0, 2)), Ok(2));
    assert_eq!(t.position_to_offset(Position::new(1, 3)), Ok(6));
    assert!(t.position_to_offset(Position::new(0, 10)).is_err());
    assert!(t.position_to_offset(Position::new(5, 0)).is_err());
}

#[test]
fn undo_returns_the_inverse_edit() {
    let mut b = buf("hello");
    b.apply_edit(op(5, 5, "", " world"));
    let r = b.undo().unwrap();
    assert_eq!(b.to_string(), "hello");
    assert_eq!((r.byte_start, r.byte_end), (5, 11));
    assert_eq!(r.old_text, " world");
    assert_eq!(r.new_text, "");
    assert!(b.is_dirty());
    assert_eq!(b.version(), 2);
}

#[test]
fn offset_past_end_is_clamped() {
    let b = buf("ab\ncd");
    assert_eq!(b.offset_to_position(100), Position::new(1, 2));
    assert_eq!(b.offset_to_position(3), Position::new(1, 0));
}

#[test]
fn slice_and_conversions() {
    let b = buf("aé b");
    assert_eq!(b.len_bytes(), 5);
    assert_eq!(b.len_chars(), 4);
    assert_eq!(b.slice_bytes(1, 3), "é");
    assert_eq!(b.slice_bytes(3, 1), "");
    assert_eq!(b.slice_bytes(0, 99), "aé b");
    assert_eq!(b.byte_to_char(3), 2);
    assert_eq!(b.byte_to_char(2), 1);
    assert_eq!(b.char_to_byte(2), 3);
    assert_eq!(b.char_to_byte(99), 5);
    assert_eq!(b.rope().len_chars(), 4);
}

#[test]
fn line_includes_its_break() {
    let b = buf("x\r\ny");
    assert_eq!(b.line(0).unwrap(), "x\r\n");
    assert_eq!(b.line(1).unwrap(), "y");
    assert!(b.line(2).is_none());
}
