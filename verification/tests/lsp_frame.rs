use alloy_studio::lsp_frame::{
    body_length, decode_body, frame_message, header_step, FrameError, HeaderStep, JsonRpcMessage, MessageId,
};

#[test]
fn write_message_format() {
    let payload = r#"{"jsonrpc":"2.0","id":1,"method":"initialize"}"#;
    let framed = frame_message(payload);
    let expected_header = format!("Content-Length: {}\r\n\r\n", payload.len());
    assert_eq!(expected_header.len(), "Content-Length: 46\r\n\r\n".len());
    assert_eq!(&framed[..expected_header.len()], expected_header.as_bytes());
    assert_eq!(&framed[expected_header.len()..], payload.as_bytes());
}

#[test]
fn header_lines() {
    assert_eq!(header_step(None, b"Content-Length: 12\r\n"), Ok(HeaderStep::Next(Some(12))));
    assert_eq!(header_step(Some(3), b"Content-Type: x\r\n"), Ok(HeaderStep::Next(Some(3))));
    assert_eq!(header_step(Some(3), b"\r\n"), Ok(HeaderStep::End));
    assert_eq!(header_step(Some(3), b"\n"), Ok(HeaderStep::End));
    assert_eq!(header_step(Some(3), b""), Ok(HeaderStep::End));
    assert_eq!(header_step(Some(3), b"   \r\n"), Ok(HeaderStep::End));
    assert_eq!(header_step(None, b"Content-Length: abc\r\n"), Err(FrameError::InvalidContentLength));
    assert_eq!(header_step(None, b"Content-Length:+7\n"), Ok(HeaderStep::Next(Some(7))));
    assert_eq!(header_step(None, &[0xff, b'\n']), Err(FrameError::HeaderNotUtf8));
}

#[test]
fn body_rules() {
    assert_eq!(body_length(None), Err(FrameError::MissingContentLength));
    assert_eq!(body_length(Some(4)), Ok(4));
    assert_eq!(decode_body(b"{}"), Ok("{}".to_string()));
    assert_eq!(decode_body(&[0xc3]), Err(FrameError::BodyNotUtf8));
    assert_eq!(FrameError::MissingContentLength.message(), "LSP message missing Content-Length header");
}

#[test]
fn message_classes() {
    let m = JsonRpcMessage {
        jsonrpc: "2.0".into(),
        id: Some(MessageId::Number(7)),
        method: None,
        params: None,
        result: Some(serde_json::Value::Null),
        error: None,
    };
    assert!(m.is_response());
    assert!(!m.is_request());
    assert!(!m.is_notification());
    assert_eq!(m.numeric_id(), Some(7));
}

#[test]
fn framed_message_reads_back() {
    let text = "{\"jsonrpc\":\"2.0\",\"method\":\"é\"}";
    let framed = frame_message(text);
    let newline = framed.iter().position(|&b| b == b'\n').unwrap();
    let (line, rest) = framed.split_at(newline + 1);
    let n = text.len();
    assert_eq!(header_step(None, line), Ok(HeaderStep::Next(Some(n))));
    assert_eq!(header_step(Some(n), &rest[..2]), Ok(HeaderStep::End));
    assert_eq!(body_length(Some(n)), Ok(n));
    assert_eq!(decode_body(&rest[2..]), Ok(text.to_string()));
}
