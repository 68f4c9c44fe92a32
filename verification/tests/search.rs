use alloy_studio::buffer::Buffer;
use alloy_studio::search::{
    glob_to_regex, is_binary, is_ignored_dir, BufferSearcher, SearchError, WorkspaceQuery,
};
use alloy_studio::types::Range;

#[test]
fn test_find_literal() {
    let buf = Buffer::from_str("hello world\nhello rust\n");
    let hits = BufferSearcher::find(&buf, "file:///test.txt", "hello", false).unwrap();
    assert_eq!(hits.len(), 2);
    assert_eq!(hits[0].line, 0);
    assert_eq!(hits[0].col, 0);
    assert_eq!(hits[1].line, 1);
}

#[test]
fn test_find_regex() {
    let buf = Buffer::from_str("foo123\nbar456\nbaz\n");
    let hits = BufferSearcher::find(&buf, "file:///f.txt", r"\d+", true).unwrap();
    assert_eq!(hits.len(), 2);
    assert_eq!(hits[0].line, 0);
    assert_eq!(hits[1].line, 1);
}

#[test]
fn test_find_empty_pattern() {
    let buf = Buffer::from_str("hello");
    let hits = BufferSearcher::find(&buf, "file:///f.txt", "", false).unwrap();
    assert!(hits.is_empty());
}

#[test]
fn test_find_no_match() {
    let buf = Buffer::from_str("hello world\n");
    let hits = BufferSearcher::find(&buf, "file:///f.txt", "rust", false).unwrap();
    assert!(hits.is_empty());
}

#[test]
fn test_replace_literal() {
    let mut buf = Buffer::from_str("foo bar foo\n");
    let count = BufferSearcher::replace(&mut buf, "foo", "baz", false).unwrap();
    assert_eq!(count, 2);
    assert_eq!(buf.to_string(), "baz bar baz\n");
}

#[test]
fn test_replace_regex() {
    let mut buf = Buffer::from_str("hello 123 world 456\n");
    let count = BufferSearcher::replace(&mut buf, r"\d+", "NUM", true).unwrap();
    assert_eq!(count, 2);
    assert_eq!(buf.to_string(), "hello NUM world NUM\n");
}

#[test]
fn test_replace_no_match() {
    let mut buf = Buffer::from_str("hello world\n");
    let count = BufferSearcher::replace(&mut buf, "xyz", "ABC", false).unwrap();
    assert_eq!(count, 0);
    assert_eq!(buf.to_string(), "hello world\n");
}

#[test]
fn test_find_literal_special_chars() {
    let buf = Buffer::from_str("a.b.c\n");
    let hits = BufferSearcher::find(&buf, "file:///f.txt", "a.b", false).unwrap();
    assert_eq!(hits.len(), 1);
    assert_eq!(hits[0].col, 0);
}

fn query(pattern: &str, glob: Option<&str>) -> WorkspaceQuery {
    WorkspaceQuery::new(pattern, false, glob).unwrap().unwrap()
}

#[test]
fn test_workspace_search_literal() {
    let q = query("hello", None);
    let mut results = q.search_file("file:///tmp/a.java", "a.java", b"hello world\nhello rust\n");
    results.extend(q.search_file("file:///tmp/b.java", "b.java", b"goodbye world\n"));
    assert_eq!(results.len(), 2);
}

#[test]
fn test_workspace_search_glob_filter() {
    let q = query("hello", Some("*.java"));
    let mut results = q.search_file("file:///tmp/Foo.java", "Foo.java", b"hello\n");
    results.extend(q.search_file("file:///tmp/Foo.txt", "Foo.txt", b"hello\n"));
    assert_eq!(results.len(), 1);
    assert!(results[0].uri.ends_with("Foo.java"));
}

#[test]
fn test_workspace_search_skips_binary() {
    let q = query("hello", None);
    let mut results = q.search_file("file:///tmp/binary.bin", "binary.bin", b"hel\x00lo");
    results.extend(q.search_file("file:///tmp/text.txt", "text.txt", b"hello\n"));
    assert_eq!(results.len(), 1);
    assert!(results[0].uri.ends_with("text.txt"));
}

// --- Further cases ------------------------------------------------------------

#[test]
fn regex_replace_expands_groups() {
    let mut buf = Buffer::from_str("a=1, b=2\n");
    let count = BufferSearcher::replace(&mut buf, r"(\w)=(\d)", "$2=$1", true).unwrap();
    assert_eq!(count, 2);
    assert_eq!(buf.to_string(), "1=a, 2=b\n");
    // Each replacement is its own edit: undoing twice restores the text.
    buf.undo();
    buf.undo();
    assert_eq!(buf.to_string(), "a=1, b=2\n");
}

#[test]
fn invalid_pattern_is_reported() {
    let buf = Buffer::from_str("x");
    let err = BufferSearcher::find(&buf, "u", "(", true).unwrap_err();
    assert_eq!(err, SearchError::InvalidPattern("(".to_string()));
    assert_eq!(err.message(), "invalid regex pattern '('");
    assert!(WorkspaceQuery::new("", false, None).unwrap().is_none());
}

#[test]
fn match_ranges_on_second_line() {
    let buf = Buffer::from_str("\r\nxx foo\n");
    let hits = BufferSearcher::find(&buf, "u", "foo", false).unwrap();
    assert_eq!(hits.len(), 1);
    assert_eq!(hits[0].line, 1);
    assert_eq!((hits[0].col, hits[0].end_col), (3, 6));
    assert_eq!(hits[0].line_text, "xx foo");
    assert_eq!(hits[0].range.start.character, 3);
    assert_eq!(hits[0].range.end.character, 6);
}

#[test]
fn match_columns_are_char_offsets() {
    let buf = Buffer::from_str("héllo wörld\n");
    let m = BufferSearcher::find(&buf, "file:///f.txt", "wörld", false).unwrap();
    assert_eq!(m.len(), 1);
    assert_eq!(m[0].line, 0);
    assert_eq!((m[0].col, m[0].end_col), (6, 11));
    assert_eq!(m[0].range, Range::on_line(0, 6, 11));
    assert_eq!(m[0].line_text, "héllo wörld");
}

#[test]
fn glob_conversion() {
    assert_eq!(glob_to_regex("*.java"), r"^.*\.java$");
    assert_eq!(glob_to_regex("a?c"), r"^a.c$");
    assert!(is_ignored_dir(".gradle"));
    assert!(is_ignored_dir("node_modules"));
    assert!(!is_ignored_dir("src"));
}

#[test]
fn binary_probe_looks_at_first_block_only() {
    let mut bytes = vec![b'a'; 9000];
    assert!(!is_binary(&bytes));
    bytes[8191] = 0;
    assert!(is_binary(&bytes));
    bytes[8191] = b'a';
    bytes[8192] = 0;
    assert!(!is_binary(&bytes));
    let q = query("a", None);
    assert!(q.search_file("u", "n", &[0xff, 0xfe]).is_empty());
}
