use alloy_studio::envelope::{RpcId, RpcMessage};

#[test]
fn request_params_kept_unless_null() {
    let m = RpcMessage::new_request(RpcId::Number(1), "read_file".to_string(), serde_json::Value::Null);
    assert_eq!(m.jsonrpc, "2.0");
    assert!(m.params.is_none());
    let v = serde_json::Value::from("x");
    let m = RpcMessage::new_request(RpcId::Number(2), "read_file".to_string(), v.clone());
    assert_eq!(m.params, Some(v));
    let n = RpcMessage::new_notification("ping".to_string(), serde_json::Value::Bool(false));
    assert_eq!(n.params, Some(serde_json::Value::Bool(false)));
    assert!(n.id.is_none());
    let n = RpcMessage::new_notification("ping".to_string(), serde_json::Value::Null);
    assert!(n.params.is_none());
}
