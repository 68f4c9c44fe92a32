use alloy_studio::core_error::CoreError;

#[test]
fn core_error_messages() {
    assert_eq!(CoreError::Buffer("x".into()).message(), "buffer: x");
    assert_eq!(CoreError::DocumentNotFound { uri: "file:///a".into() }.message(), "document not found: file:///a");
    assert_eq!(CoreError::InvalidPosition { line: 3, col: 40 }.message(), "invalid position: line 3 col 40");
}
