use alloy_studio::selection::{Cursor, Selection, SelectionSet};

#[test]
fn test_cursor_ordering() {
    let a = Cursor::new(0, 5);
    let b = Cursor::new(1, 0);
    assert!(a.is_before(&b));
    assert!(!b.is_before(&a));
}

#[test]
fn test_selection_empty() {
    let s = Selection::cursor(Cursor::new(3, 7));
    assert!(s.is_empty());
}

#[test]
fn test_selection_normalized() {
    let s = Selection::new(Cursor::new(2, 5), Cursor::new(0, 3));
    let (start, end) = s.normalized();
    assert!(start.is_before(&end) || start == end);
}

#[test]
fn test_selection_contains() {
    let s = Selection::new(Cursor::new(0, 0), Cursor::new(0, 10));
    assert!(s.contains(Cursor::new(0, 5)));
    assert!(!s.contains(Cursor::new(0, 11)));
}

#[test]
fn test_selection_set_reduce() {
    let mut ss = SelectionSet::new(Selection::cursor(Cursor::new(0, 0)));
    ss.add(Selection::cursor(Cursor::new(1, 0)));
    ss.add(Selection::cursor(Cursor::new(2, 0)));
    assert_eq!(ss.all().len(), 3);
    ss.reduce_to_primary();
    assert_eq!(ss.all().len(), 1);
}

#[test]
fn normalized_swaps_reversed_ends() {
    let s = Selection::new(Cursor::new(2, 5), Cursor::new(0, 3));
    assert_eq!(s.normalized(), (Cursor::new(0, 3), Cursor::new(2, 5)));
    let r = s.as_range();
    assert_eq!((r.start.line, r.start.character, r.end.line, r.end.character), (0, 3, 2, 5));
}

#[test]
fn contains_includes_both_ends_of_reversed_selection() {
    let s = Selection::new(Cursor::new(4, 2), Cursor::new(1, 8));
    assert!(s.contains(Cursor::new(4, 2)));
    assert!(s.contains(Cursor::new(1, 8)));
    assert!(s.contains(Cursor::new(3, 0)));
    assert!(!s.contains(Cursor::new(1, 7)));
    assert!(!s.contains(Cursor::new(4, 3)));
}

#[test]
fn reduce_keeps_the_primary_selection() {
    let mut ss = SelectionSet::new(Selection::cursor(Cursor::new(5, 5)));
    ss.add(Selection::cursor(Cursor::new(1, 0)));
    ss.set_primary(Selection::new(Cursor::new(7, 1), Cursor::new(7, 4)));
    ss.reduce_to_primary();
    assert_eq!(ss.all(), &[Selection::new(Cursor::new(7, 1), Cursor::new(7, 4))]);
    assert_eq!(*ss.primary(), Selection::new(Cursor::new(7, 1), Cursor::new(7, 4)));
}

#[test]
fn primary_mut_edits_the_primary() {
    let mut ss = SelectionSet::new(Selection::cursor(Cursor::new(0, 0)));
    ss.add(Selection::cursor(Cursor::new(9, 9)));
    ss.primary_mut().active = Cursor::new(0, 4);
    assert_eq!(ss.all()[0], Selection::new(Cursor::new(0, 0), Cursor::new(0, 4)));
    assert_eq!(ss.all()[1], Selection::cursor(Cursor::new(9, 9)));
}

#[test]
fn cursor_position_roundtrip() {
    let c = Cursor::new(12, 34);
    let p = c.to_position();
    assert_eq!((p.line, p.character), (12, 34));
    assert_eq!(Cursor::from_position(p), c);
}
