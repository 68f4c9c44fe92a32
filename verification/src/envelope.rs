//! JSON-RPC 2.0 message envelopes and error objects.
use vstd::prelude::*;
use crate::text::{decimal, owned, push_char, push_str, u64_to_decimal};

verus! {

#[verifier::external_type_specification]
#[verifier::external_body]
pub struct ExJsonValue(serde_json::Value);

pub const PARSE_ERROR: i32 = -32700;
pub const INVALID_REQUEST: i32 = -32600;
pub const METHOD_NOT_FOUND: i32 = -32601;
pub const INVALID_PARAMS: i32 = -32602;
pub const INTERNAL_ERROR: i32 = -32603;

/// The decimal text of a signed number, with a leading `-` when negative.
pub open spec fn signed_decimal(n: int) -> Seq<char> {
    if n < 0 { seq!['-'] + decimal((-n) as nat) } else { decimal(n as nat) }
}

/// Decimal text of a signed 64-bit number.
pub fn i64_to_decimal(n: i64) -> (s: String)
    ensures
        s@ == signed_decimal(n as int),
{
    if n < 0 {
        let mag: u64 = if n == i64::MIN { 9223372036854775808u64 } else { (-n) as u64 };
        let mut s = String::new();
        push_char(&mut s, '-');
        let d = u64_to_decimal(mag);
        push_str(&mut s, d.as_str());
        s
    } else {
        u64_to_decimal(n as u64)
    }
}

/// A JSON-RPC request/response identifier: a number or a string.
#[derive(Debug, Clone, PartialEq, Eq, Hash)]
pub enum RpcId {
    Number(i64),
    Str(String),
}

impl RpcId {
    /// The number, or `None` for a string id.
    pub fn as_number(&self) -> (r: Option<i64>)
        ensures
            r == match self { RpcId::Number(n) => Some(*n), RpcId::Str(_) => None },
    {
        match self {
            RpcId::Number(n) => Some(*n),
            RpcId::Str(_) => None,
        }
    }

    /// The string, or `None` for a number id.
    pub fn as_str(&self) -> (r: Option<&str>)
        ensures
            r is Some <==> self is Str,
            r matches Some(s) ==> self matches RpcId::Str(t) && s@ == t@,
    {
        match self {
            RpcId::Str(s) => Some(s.as_str()),
            RpcId::Number(_) => None,
        }
    }

    /// The number of a number id; calling it on a string id is a caller error.
    pub fn into_number(self) -> (n: i64)
        requires
            self is Number,
        ensures
            self matches RpcId::Number(m) && n == m,
    {
        match self {
            RpcId::Number(n) => n,
            RpcId::Str(_) => 0,
        }
    }

    /// The string of a string id; calling it on a number id is a caller error.
    pub fn into_str(self) -> (s: String)
        requires
            self is Str,
        ensures
            self matches RpcId::Str(t) && s == t,
    {
        match self {
            RpcId::Str(s) => s,
            RpcId::Number(_) => String::new(),
        }
    }

    /// The id as it is displayed: the number in decimal, or the string itself.
    pub fn display_string(&self) -> (s: String)
        ensures
            s@ == match self { RpcId::Number(n) => signed_decimal(*n as int), RpcId::Str(t) => t@ },
    {
        match self {
            RpcId::Number(n) => i64_to_decimal(*n),
            RpcId::Str(t) => t.clone(),
        }
    }
}

impl From<i64> for RpcId {
    fn from(n: i64) -> (r: Self) {
        RpcId::Number(n)
    }
}

impl vstd::std_specs::convert::FromSpecImpl<i64> for RpcId {
    open spec fn obeys_from_spec() -> bool {
        true
    }

    open spec fn from_spec(n: i64) -> Self {
        RpcId::Number(n)
    }
}

impl From<String> for RpcId {
    fn from(s: String) -> (r: Self) {
        RpcId::Str(s)
    }
}

impl vstd::std_specs::convert::FromSpecImpl<String> for RpcId {
    open spec fn obeys_from_spec() -> bool {
        true
    }

    open spec fn from_spec(s: String) -> Self {
        RpcId::Str(s)
    }
}

/// A JSON-RPC error object, embedded in error responses.
#[derive(Debug, Clone, PartialEq)]
pub struct RpcError {
    pub code: i32,
    pub message: String,
    pub data: Option<serde_json::Value>,
}

impl RpcError {
    /// An error with a code and message and no data.
    pub fn new(code: i32, message: String) -> (e: Self)
        ensures
            e.code == code,
            e.message == message,
            e.data is None,
    {
        RpcError { code, message, data: None }
    }

    /// This error with `data` attached.
    pub fn with_data(self, data: serde_json::Value) -> (e: Self)
        ensures
            e.code == self.code,
            e.message == self.message,
            e.data == Some(data),
    {
        let mut e = self;
        e.data = Some(data);
        e
    }

    pub fn parse_error() -> (e: Self)
        ensures
            e.code == PARSE_ERROR,
            e.message@ == "Parse error"@,
            e.data is None,
    {
        Self::new(PARSE_ERROR, owned("Parse error"))
    }

    pub fn invalid_request() -> (e: Self)
        ensures
            e.code == INVALID_REQUEST,
            e.message@ == "Invalid Request"@,
            e.data is None,
    {
        Self::new(INVALID_REQUEST, owned("Invalid Request"))
    }

    /// The error for an unknown method.
    pub fn method_not_found(method: &str) -> (e: Self)
        ensures
            e.code == METHOD_NOT_FOUND,
            e.message@ == "Method not found: "@ + method@,
            e.data is None,
    {
        let mut m = owned("Method not found: ");
        push_str(&mut m, method);
        Self::new(METHOD_NOT_FOUND, m)
    }

    pub fn invalid_params(msg: String) -> (e: Self)
        ensures
            e.code == INVALID_PARAMS,
            e.message == msg,
            e.data is None,
    {
        Self::new(INVALID_PARAMS, msg)
    }

    pub fn internal(msg: String) -> (e: Self)
        ensures
            e.code == INTERNAL_ERROR,
            e.message == msg,
            e.data is None,
    {
        Self::new(INTERNAL_ERROR, msg)
    }

    /// The error as displayed: `"[code] message"`.
    pub fn display_string(&self) -> (s: String)
        ensures
            s@ == seq!['['] + signed_decimal(self.code as int) + "] "@ + self.message@,
    {
        let mut s = String::new();
        push_char(&mut s, '[');
        let d = i64_to_decimal(self.code as i64);
        push_str(&mut s, d.as_str());
        push_str(&mut s, "] ");
        push_str(&mut s, self.message.as_str());
        s
    }
}

/// Whether a JSON value is `null`, as `serde_json::Value::is_null` answers
/// (it depends on the value alone).
pub uninterp spec fn json_null(v: serde_json::Value) -> bool;

/// `serde_json::Value::is_null`.
#[verifier::external_body]
fn json_is_null(v: &serde_json::Value) -> (r: bool)
    ensures
        r == json_null(*v),
{
    v.is_null()
}

/// A raw JSON-RPC 2.0 message: a request (id and method), a notification (method
/// only), a success response (id and result) or an error response (id and error).
#[derive(Debug, Clone, PartialEq)]
pub struct RpcMessage {
    pub jsonrpc: String,
    pub id: Option<RpcId>,
    pub method: Option<String>,
    pub params: Option<serde_json::Value>,
    pub result: Option<serde_json::Value>,
    pub error: Option<RpcError>,
}

impl RpcMessage {
    /// A request; `params` is kept unless it is JSON `null`.
    pub fn new_request(id: RpcId, method: String, params: serde_json::Value) -> (m: Self)
        ensures
            m.jsonrpc@ == "2.0"@,
            m.id == Some(id),
            m.method == Some(method),
            m.params is None <==> json_null(params),
            m.params matches Some(p) ==> p == params,
            m.result is None,
            m.error is None,
    {
        let params = if json_is_null(&params) { None } else { Some(params) };
        RpcMessage { jsonrpc: owned("2.0"), id: Some(id), method: Some(method), params, result: None, error: None }
    }

    /// A notification (no id); `params` is kept unless it is JSON `null`.
    pub fn new_notification(method: String, params: serde_json::Value) -> (m: Self)
        ensures
            m.jsonrpc@ == "2.0"@,
            m.id is None,
            m.method == Some(method),
            m.params is None <==> json_null(params),
            m.params matches Some(p) ==> p == params,
            m.result is None,
            m.error is None,
    {
        let params = if json_is_null(&params) { None } else { Some(params) };
        RpcMessage { jsonrpc: owned("2.0"), id: None, method: Some(method), params, result: None, error: None }
    }

    /// A success response.
    pub fn new_ok(id: RpcId, result: serde_json::Value) -> (m: Self)
        ensures
            m.jsonrpc@ == "2.0"@,
            m.id == Some(id),
            m.method is None,
            m.params is None,
            m.result == Some(result),
            m.error is None,
    {
        RpcMessage { jsonrpc: owned("2.0"), id: Some(id), method: None, params: None, result: Some(result), error: None }
    }

    /// An error response.
    pub fn new_err(id: RpcId, error: RpcError) -> (m: Self)
        ensures
            m.jsonrpc@ == "2.0"@,
            m.id == Some(id),
            m.method is None,
            m.params is None,
            m.result is None,
            m.error == Some(error),
    {
        RpcMessage { jsonrpc: owned("2.0"), id: Some(id), method: None, params: None, result: None, error: Some(error) }
    }

    /// `true` for a request (it has both an id and a method).
    pub fn is_request(&self) -> (r: bool)
        ensures
            r == (self.id is Some && self.method is Some),
    {
        self.id.is_some() && self.method.is_some()
    }

    /// `true` for a response (an id and no method).
    pub fn is_response(&self) -> (r: bool)
        ensures
            r == (self.id is Some && self.method is None),
    {
        self.id.is_some() && self.method.is_none()
    }

    /// `true` for a notification (a method and no id).
    pub fn is_notification(&self) -> (r: bool)
        ensures
            r == (self.id is None && self.method is Some),
    {
        self.id.is_none() && self.method.is_some()
    }
}

/// Every message is at most one of a request, a response and a notification.
pub proof fn lemma_message_classes_exclusive(m: RpcMessage)
    ensures
        !((m.id is Some && m.method is Some) && (m.id is Some && m.method is None)),
        !((m.id is Some && m.method is Some) && (m.id is None && m.method is Some)),
        !((m.id is Some && m.method is None) && (m.id is None && m.method is Some)),
{
}

/// The error response the proxy sends: `code` and `message` under `id`.
pub fn error_response(id: RpcId, code: i32, message: &str) -> (m: RpcMessage)
    ensures
        m.jsonrpc@ == "2.0"@,
        m.id == Some(id),
        m.params is None,
        m.method is None,
        m.result is None,
        m.error matches Some(e) && e.code == code && e.message@ == message@ && e.data is None,
{
    RpcMessage::new_err(id, RpcError::new(code, owned(message)))
}

/// The success response the proxy sends: `result` under `id`.
pub fn ok_response(id: RpcId, result: serde_json::Value) -> (m: RpcMessage)
    ensures
        m.jsonrpc@ == "2.0"@,
        m.id == Some(id),
        m.method is None,
        m.params is None,
        m.result == Some(result),
        m.error is None,
{
    RpcMessage::new_ok(id, result)
}

} // verus!
