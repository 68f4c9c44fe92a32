use alloy_studio::types::{BuildError, BuildErrorKind, CompletionItem, Diagnostic, DiagnosticSeverity, FileEvent, FileEventKind, Location, Position, Range, TextEdit};

#[test]
fn severity_codes_roundtrip() {
    for s in [DiagnosticSeverity::Error, DiagnosticSeverity::Warning, DiagnosticSeverity::Information, DiagnosticSeverity::Hint] {
        assert_eq!(DiagnosticSeverity::try_from_u8(s.to_u8()), Ok(s));
    }
    assert_eq!(DiagnosticSeverity::Hint.to_u8(), 4);
}

#[test]
fn unknown_severity_is_an_error() {
    assert_eq!(DiagnosticSeverity::try_from_u8(0), Err("unknown DiagnosticSeverity value: 0".to_string()));
    assert_eq!(DiagnosticSeverity::try_from_u8(200), Err("unknown DiagnosticSeverity value: 200".to_string()));
}

#[test]
fn constructors_fill_fields() {
    let r = Range::on_line(3, 1, 9);
    assert_eq!(r, Range::new(Position::new(3, 1), Position::new(3, 9)));
    let d = Diagnostic::warning(r, "careful".to_string());
    assert_eq!(d.severity, DiagnosticSeverity::Warning);
    assert!(d.code.is_none() && d.source.is_none());
    let e = Diagnostic::error(r, "bad".to_string());
    assert_eq!(e.severity, DiagnosticSeverity::Error);
    let b = BuildError::compile("oops".to_string());
    assert_eq!(b.kind, BuildErrorKind::Compile);
    assert!(b.file.is_none() && b.line.is_none() && b.column.is_none());
    let c = CompletionItem::simple("foo".to_string());
    assert_eq!(c.label, "foo");
    assert!(c.kind.is_none());
    let t = TextEdit::new(r, "x".to_string());
    assert_eq!(t.new_text, "x");
    let l = Location::new("file:///a".to_string(), r);
    assert_eq!(l.uri, "file:///a");
    let f = FileEvent::new("file:///b".to_string(), FileEventKind::Deleted);
    assert_eq!(f.kind, FileEventKind::Deleted);
}
