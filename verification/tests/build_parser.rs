use alloy_studio::build_parser::BuildOutputParser;
use alloy_studio::types::{BuildErrorKind, BuildEvent};

#[test]
fn parses_java_compile_error() {
    let mut parser = BuildOutputParser::new();
    let line = "TeamCode/src/main/java/org/firstinspires/ftc/teamcode/Auto.java: 42: error: cannot find symbol";
    let event = parser.feed_line(line);
    assert!(event.is_some(), "should detect compile error");
    match event.unwrap() {
        BuildEvent::ErrorDetected(e) => {
            assert_eq!(e.kind, BuildErrorKind::Compile);
            assert_eq!(e.line, Some(42));
            assert!(e.file.is_some());
        }
        other => panic!("unexpected event: {other:?}"),
    }
    assert_eq!(parser.errors().len(), 1);
}

#[test]
fn parses_kotlin_compile_error() {
    let mut parser = BuildOutputParser::new();
    let line = "src/main/java/org/firstinspires/ftc/teamcode/Drive.kt: 10: error: unresolved reference: HardwareMap";
    let event = parser.feed_line(line);
    assert!(event.is_some());
    if let Some(BuildEvent::ErrorDetected(e)) = event {
        assert_eq!(e.kind, BuildErrorKind::Compile);
    }
}

#[test]
fn parses_dependency_resolve_error() {
    let mut parser = BuildOutputParser::new();
    let line = "Could not resolve org.firstinspires:ftc-sdk:9.2.0";
    let event = parser.feed_line(line);
    assert!(event.is_some());
    if let Some(BuildEvent::ErrorDetected(e)) = event {
        assert_eq!(e.kind, BuildErrorKind::Sdk);
    }
}

#[test]
fn parses_generic_dep_error() {
    let mut parser = BuildOutputParser::new();
    let line = "Could not resolve com.example:some-lib:1.0.0";
    let event = parser.feed_line(line);
    assert!(event.is_some());
    if let Some(BuildEvent::ErrorDetected(e)) = event {
        assert_eq!(e.kind, BuildErrorKind::Dependency);
    }
}

#[test]
fn tracks_task_lines() {
    let mut parser = BuildOutputParser::new();
    parser.feed_line("> Task :TeamCode:compileDebugJavaWithJavac");
    assert_eq!(parser.current_task().as_deref(), Some("TeamCode:compileDebugJavaWithJavac"));
}

#[test]
fn finish_returns_all_errors() {
    let mut parser = BuildOutputParser::new();
    parser.feed_line("src/Foo.java: 1: error: first error");
    parser.feed_line("src/Bar.java: 2: error: second error");
    let errors = parser.finish();
    assert_eq!(errors.len(), 2);
}

#[test]
fn compile_error_fields_are_exact() {
    let mut parser = BuildOutputParser::new();
    let ev = parser.feed_line("src/Foo.java:7: error: ';' expected").unwrap();
    match ev {
        BuildEvent::ErrorDetected(e) => {
            assert_eq!(e.file.as_deref(), Some("src/Foo.java"));
            assert_eq!(e.line, Some(7));
            assert_eq!(e.column, None);
            assert_eq!(e.message, "';' expected");
        }
        other => panic!("unexpected event: {other:?}"),
    }
}

#[test]
fn dependency_message_names_the_coordinate() {
    let mut parser = BuildOutputParser::new();
    let ev = parser.feed_line("> Could not resolve com.example:lib:2.1 for debug").unwrap();
    match ev {
        BuildEvent::ErrorDetected(e) => {
            assert_eq!(e.message, "Could not resolve com.example:lib:2.1");
            assert_eq!(e.kind, BuildErrorKind::Dependency);
            assert!(e.file.is_none() && e.line.is_none());
        }
        other => panic!("unexpected event: {other:?}"),
    }
}

#[test]
fn ordinary_lines_report_nothing() {
    let mut parser = BuildOutputParser::new();
    assert!(parser.feed_line("BUILD SUCCESSFUL in 3s").is_none());
    assert!(parser.feed_line("FAILURE: Build failed with an exception.").is_none());
    assert!(parser.errors().is_empty());
    assert_eq!(parser.current_task(), None);
}

#[test]
fn overlong_line_number_becomes_zero() {
    let mut parser = BuildOutputParser::new();
    match parser.feed_line("A.java: 99999999999: error: x").unwrap() {
        BuildEvent::ErrorDetected(e) => assert_eq!(e.line, Some(0)),
        other => panic!("unexpected event: {other:?}"),
    }
}

#[test]
fn feeding_keeps_earlier_errors_and_adds_the_reported_one() {
    let mut parser = BuildOutputParser::new();
    assert!(parser.feed_line("> Task :TeamCode:compileDebugJavaWithJavac").is_none());
    assert_eq!(parser.errors().len(), 0);
    let first = parser.feed_line("A.java: 1: error: one");
    let second = parser.feed_line("Could not resolve com.example:lib:1.0");
    assert!(parser.feed_line("BUILD FAILED in 3s").is_none());
    let errors = parser.errors();
    assert_eq!(errors.len(), 2);
    match (first, second) {
        (Some(BuildEvent::ErrorDetected(a)), Some(BuildEvent::ErrorDetected(b))) => {
            assert_eq!(errors[0].message, a.message);
            assert_eq!(errors[1].message, b.message);
            assert_eq!(errors[1].kind, BuildErrorKind::Dependency);
        }
        other => panic!("unexpected events: {other:?}"),
    }
}
