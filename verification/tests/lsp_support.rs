use alloy_studio::lsp_frame::{JsonRpcError, JsonRpcMessage, MessageId};
use alloy_studio::lsp_support::{
    command_for, route_message, server_command, supports_completion, supports_formatting,
    supports_goto_definition, supports_hover, text_document_sync_kind, LspError, Provider, Reply,
    Route, ServerFeatures, SyncCapability,
};

#[test]
fn commands_per_language() {
    assert_eq!(command_for("java", None), Some(("jdtls".to_string(), vec![])));
    assert_eq!(
        command_for("kotlin", Some("/usr/bin/jdtls".into())),
        Some(("/usr/bin/jdtls".to_string(), vec![]))
    );
    assert_eq!(command_for("groovy", None), None);
    assert_eq!(server_command("groovy"), None);
    assert_eq!(server_command("python"), None);
    assert!(server_command("java").is_some());
}

#[test]
fn capability_queries() {
    let caps = ServerFeatures {
        completion: true,
        hover: Provider::Flag(false),
        definition: Provider::Options,
        formatting: Provider::Absent,
        sync: SyncCapability::Options(Some(2)),
    };
    assert!(supports_completion(&caps));
    assert!(!supports_hover(&caps));
    assert!(supports_goto_definition(&caps));
    assert!(!supports_formatting(&caps));
    assert_eq!(text_document_sync_kind(&caps), 2);
    let caps = ServerFeatures { sync: SyncCapability::Options(None), ..caps };
    assert_eq!(text_document_sync_kind(&caps), 0);
    let caps = ServerFeatures { sync: SyncCapability::Kind(1), hover: Provider::Flag(true), ..caps };
    assert_eq!(text_document_sync_kind(&caps), 1);
    assert!(supports_hover(&caps));
}

fn msg(id: Option<i64>, method: Option<&str>) -> JsonRpcMessage {
    JsonRpcMessage {
        jsonrpc: "2.0".into(),
        id: id.map(MessageId::Number),
        method: method.map(|m| m.to_string()),
        params: None,
        result: None,
        error: None,
    }
}

#[test]
fn routing() {
    let mut m = msg(Some(3), None);
    m.error = Some(JsonRpcError { code: -32601, message: "nope".into(), data: None });
    match route_message(m) {
        Route::Deliver { id, reply: Reply::Error { code, message } } => {
            assert_eq!(id, Some(3));
            assert_eq!(code, -32601);
            assert_eq!(message, "nope");
        }
        other => panic!("unexpected {other:?}"),
    }
    let mut m = msg(Some(4), None);
    m.result = Some(serde_json::Value::Bool(true));
    assert!(matches!(route_message(m), Route::Deliver { id: Some(4), reply: Reply::Result(serde_json::Value::Bool(true)) }));
    assert!(matches!(route_message(msg(Some(5), None)), Route::Deliver { reply: Reply::Empty, .. }));
    assert!(matches!(route_message(msg(None, Some("window/logMessage"))), Route::Broadcast(_)));
    assert!(matches!(route_message(msg(Some(1), Some("workspace/configuration"))), Route::Broadcast(_)));
}

#[test]
fn message_without_id_or_method_is_discarded() {
    assert!(matches!(route_message(msg(None, None)), Route::Discard));
}

#[test]
fn error_messages() {
    assert_eq!(LspError::ServerNotFound("groovy".into()).message(), "server not found for language: groovy");
    assert_eq!(LspError::Server { code: -2, message: "x".into() }.message(), "lsp error -2: x");
    assert_eq!(LspError::Timeout.message(), "request timeout");
}

#[test]
fn string_id_reaches_nobody() {
    let mut m = msg(None, None);
    m.id = Some(MessageId::Other(serde_json::Value::from("abc")));
    assert_eq!(m.numeric_id(), None);
    assert!(m.is_response());
    assert!(matches!(route_message(m), Route::Deliver { id: None, reply: Reply::Empty }));
}
