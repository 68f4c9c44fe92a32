use alloy_studio::envelope::{RpcId, RpcMessage};
use alloy_studio::pending::PendingRequests;

#[test]
fn complete_delivers_once() {
    let mut pending = PendingRequests::new();
    assert!(pending.is_empty());
    let mut rx = pending.insert(7);
    assert_eq!(pending.len(), 1);
    let msg = RpcMessage::new_ok(RpcId::Number(7), serde_json::Value::from(3));
    assert!(pending.complete(7, msg.clone()));
    assert!(pending.is_empty());
    assert_eq!(rx.try_recv().unwrap(), msg);
    assert!(!pending.complete(7, msg));
}

#[test]
fn cancel_forgets_the_request() {
    let mut pending = PendingRequests::default();
    let _rx1 = pending.insert(1);
    let _rx2 = pending.insert(2);
    assert_eq!(pending.len(), 2);
    pending.cancel(1);
    assert_eq!(pending.len(), 1);
    let msg = RpcMessage::new_ok(RpcId::Number(1), serde_json::Value::Null);
    assert!(!pending.complete(1, msg));
}
