use alloy_studio::proxy_dispatch::{
    decode_write_content, plan_request, request_params, DispatchPlan, JsonParams, ParamField, ProxyOp,
    RequestParams, WriteContent,
};

fn field(v: Option<&serde_json::Value>) -> ParamField {
    match v {
        Some(serde_json::Value::String(s)) => ParamField::Str(s.clone()),
        Some(serde_json::Value::Bool(b)) => ParamField::Bool(*b),
        Some(serde_json::Value::Array(a)) => ParamField::Array(a.iter().map(|e| e.as_u64()).collect()),
        _ => ParamField::Other,
    }
}

fn params(json: &str) -> RequestParams {
    let v: serde_json::Value = serde_json::from_str(json).unwrap();
    request_params(Some(JsonParams {
        path: field(v.get("path")),
        recursive: field(v.get("recursive")),
        content: field(v.get("content")),
    }))
}

#[test]
fn read_file_needs_a_path() {
    let p = params(r#"{"path": "/a/b.txt"}"#);
    assert_eq!(
        plan_request("read_file", &p),
        DispatchPlan::Run(ProxyOp::ReadFile { path: "/a/b.txt".to_string() })
    );
    let none = request_params(None);
    assert_eq!(
        plan_request("read_file", &none),
        DispatchPlan::Reject { code: -32602, message: "missing 'path' param".to_string() }
    );
    let wrong_type = params(r#"{"path": 3}"#);
    assert!(matches!(plan_request("stat_file", &wrong_type), DispatchPlan::Reject { code: -32602, .. }));
}

#[test]
fn unknown_method_is_not_found() {
    let p = params(r#"{"path": "/a"}"#);
    assert_eq!(
        plan_request("rename", &p),
        DispatchPlan::Reject { code: -32601, message: "method not found: rename".to_string() }
    );
}

#[test]
fn write_file_content_forms() {
    let p = params(r#"{"path": "/f", "content": [104, 105, 300, "x", 33]}"#);
    assert_eq!(
        plan_request("write_file", &p),
        DispatchPlan::Run(ProxyOp::WriteFile { path: "/f".to_string(), content: vec![104, 105, 44, 33] })
    );
    let p = params(r#"{"path": "/f", "content": "aGk="}"#);
    assert_eq!(
        plan_request("write_file", &p),
        DispatchPlan::Run(ProxyOp::WriteFile { path: "/f".to_string(), content: b"hi".to_vec() })
    );
    let p = params(r#"{"path": "/f", "content": "hello world!"}"#);
    assert_eq!(
        plan_request("write_file", &p),
        DispatchPlan::Run(ProxyOp::WriteFile { path: "/f".to_string(), content: b"hello world!".to_vec() })
    );
    let p = params(r#"{"path": "/f", "content": {"x": 1}}"#);
    assert_eq!(p.content, WriteContent::Missing);
    assert_eq!(decode_write_content(&p.content), Vec::<u8>::new());
}

#[test]
fn create_dir_recursive_flag() {
    let p = params(r#"{"path": "/d", "recursive": true}"#);
    assert_eq!(
        plan_request("create_dir", &p),
        DispatchPlan::Run(ProxyOp::CreateDir { path: "/d".to_string(), recursive: true })
    );
    let p = params(r#"{"path": "/d"}"#);
    assert_eq!(
        plan_request("create_dir", &p),
        DispatchPlan::Run(ProxyOp::CreateDir { path: "/d".to_string(), recursive: false })
    );
    for (m, op) in [
        ("list_dir", ProxyOp::ListDir { path: "/d".to_string() }),
        ("delete_file", ProxyOp::DeleteFile { path: "/d".to_string() }),
        ("watch_path", ProxyOp::WatchPath { path: "/d".to_string() }),
        ("unwatch_path", ProxyOp::UnwatchPath { path: "/d".to_string() }),
    ] {
        assert_eq!(plan_request(m, &p), DispatchPlan::Run(op));
    }
}

#[test]
fn content_array_keeps_only_unsigned_numbers() {
    let p = params(r#"{"path": "/f", "recursive": true, "content": [104, -1, "x", 105, 1.5]}"#);
    assert_eq!(p.path, Some("/f".to_string()));
    assert_eq!(p.recursive, Some(true));
    assert_eq!(p.content, WriteContent::Numbers(vec![104, 105]));
    let q = params(r#"{"content": "aGk="}"#);
    assert_eq!(q.content, WriteContent::Text("aGk=".to_string()));
    assert_eq!(q.path, None);
    let r = params(r#"{"content": 3, "recursive": "yes"}"#);
    assert_eq!(r.content, WriteContent::Missing);
    assert_eq!(r.recursive, None);
}
