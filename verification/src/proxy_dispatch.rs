//! How the file-system proxy turns a request into an operation: which methods it
//! knows, which parameters each needs, and how written content is decoded.
use vstd::prelude::*;
use crate::base64::{base64_decode, base64_decode_spec, base64_valid};
use crate::envelope::INVALID_PARAMS;
use crate::envelope::METHOD_NOT_FOUND;
use crate::text::{owned, push_str, str_eq};

verus! {

/// The content parameter of a `write_file` request.
#[derive(Debug, Clone, PartialEq, Eq)]
pub enum WriteContent {
    /// A JSON array; each element that is a non-negative integer, in order.
    Numbers(Vec<u64>),
    /// A JSON string.
    Text(String),
    /// Absent, or some other JSON value.
    Missing,
}

/// The parameters of a proxy request that the operations read.
#[derive(Debug, Clone, PartialEq, Eq)]
pub struct RequestParams {
    /// The string under `"path"`.
    pub path: Option<String>,
    /// The boolean under `"recursive"`.
    pub recursive: Option<bool>,
    /// What is under `"content"`.
    pub content: WriteContent,
}

/// A file-system operation the proxy performs.
#[derive(Debug, Clone, PartialEq, Eq)]
pub enum ProxyOp {
    ReadFile { path: String },
    WriteFile { path: String, content: Vec<u8> },
    ListDir { path: String },
    StatFile { path: String },
    DeleteFile { path: String },
    CreateDir { path: String, recursive: bool },
    WatchPath { path: String },
    UnwatchPath { path: String },
}

/// What the proxy does with a request: run an operation, or answer at once with
/// an error.
#[derive(Debug, Clone, PartialEq, Eq)]
pub enum DispatchPlan {
    Run(ProxyOp),
    Reject { code: i32, message: String },
}

/// The bytes written for a `write_file` content parameter: the numbers of an
/// array, each cut to its low byte; the Base64 decoding of a string that is
/// Base64, the string's own UTF-8 bytes otherwise; nothing without content.
pub open spec fn write_content_spec(c: WriteContent) -> Seq<u8> {
    match c {
        WriteContent::Numbers(v) => v@.map_values(|n: u64| n as u8),
        WriteContent::Text(s) => if base64_valid(vstd::utf8::encode_utf8(s@)) {
            base64_decode_spec(vstd::utf8::encode_utf8(s@))
        } else {
            vstd::utf8::encode_utf8(s@)
        },
        WriteContent::Missing => Seq::<u8>::empty(),
    }
}

fn copy_bytes(b: &[u8]) -> (r: Vec<u8>)
    ensures
        r@ == b@,
{
    let mut out: Vec<u8> = Vec::new();
    let mut i: usize = 0;
    while i < b.len()
        invariant
            i <= b@.len(),
            out@ == b@.take(i as int),
        decreases b@.len() - i,
    {
        out.push(b[i]);
        i += 1;
        assert(out@ =~= b@.take(i as int));
    }
    assert(b@.take(i as int) =~= b@);
    out
}

/// Decode the content of a `write_file` request.
pub fn decode_write_content(c: &WriteContent) -> (r: Vec<u8>)
    ensures
        r@ == write_content_spec(*c),
{
    match c {
        WriteContent::Numbers(v) => {
            let mut out: Vec<u8> = Vec::new();
            let mut i: usize = 0;
            while i < v.len()
                invariant
                    i <= v@.len(),
                    out@ == v@.take(i as int).map_values(|n: u64| n as u8),
                decreases v@.len() - i,
            {
                out.push(v[i] as u8);
                i += 1;
                assert(out@ =~= v@.take(i as int).map_values(|n: u64| n as u8));
            }
            assert(v@.take(i as int) =~= v@);
            out
        },
        WriteContent::Text(s) => {
            // Try to decode as Base64; fall back to the raw UTF-8 bytes.
            match base64_decode(s.as_str()) {
                Ok(decoded) => decoded,
                Err(()) => copy_bytes(s.as_str().as_bytes()),
            }
        },
        WriteContent::Missing => Vec::new(),
    }
}

/// The methods the proxy serves.
pub open spec fn is_proxy_method(m: Seq<char>) -> bool {
    m == "read_file"@ || m == "write_file"@ || m == "list_dir"@ || m == "stat_file"@ || m
        == "delete_file"@ || m == "create_dir"@ || m == "watch_path"@ || m == "unwatch_path"@
}

/// The operation a known method other than `write_file` asks for, on `path`.
pub open spec fn op_spec(method: Seq<char>, path: String, p: RequestParams) -> ProxyOp {
    if method == "read_file"@ {
        ProxyOp::ReadFile { path }
    } else if method == "list_dir"@ {
        ProxyOp::ListDir { path }
    } else if method == "stat_file"@ {
        ProxyOp::StatFile { path }
    } else if method == "delete_file"@ {
        ProxyOp::DeleteFile { path }
    } else if method == "create_dir"@ {
        ProxyOp::CreateDir {
            path,
            recursive: match p.recursive {
                Some(b) => b,
                None => false,
            },
        }
    } else if method == "watch_path"@ {
        ProxyOp::WatchPath { path }
    } else {
        ProxyOp::UnwatchPath { path }
    }
}

/// `op` is the operation `method` asks for on `path` with `p`, its written
/// bytes taken by their value.
pub open spec fn plans_op(op: ProxyOp, method: Seq<char>, path: String, p: RequestParams) -> bool {
    match op {
        ProxyOp::WriteFile { path: q, content } => method == "write_file"@ && q == path
            && content@ == write_content_spec(p.content),
        _ => op == op_spec(method, path, p) && method != "write_file"@,
    }
}

proof fn lemma_write_file_shape(m: Seq<char>)
    ensures
        m == "write_file"@ ==> m.len() == 10 && m[0] == 'w' && m[1] == 'r',
{
    reveal_strlit("write_file");
}

/// The message sent for an unknown method.
pub open spec fn method_not_found_message(method: Seq<char>) -> Seq<char> {
    "method not found: "@ + method
}

/// Decide what to do with a request for `method` with parameters `p`: an
/// unknown method is answered with "method not found"; a known one without a
/// `path` parameter with "missing 'path' param"; otherwise its operation runs.
pub fn plan_request(method: &str, p: &RequestParams) -> (r: DispatchPlan)
    ensures
        match r {
            DispatchPlan::Reject { code, message } => {
                ||| !is_proxy_method(method@) && code == METHOD_NOT_FOUND && message@
                    == method_not_found_message(method@)
                ||| is_proxy_method(method@) && p.path is None && code == INVALID_PARAMS
                    && message@ == "missing 'path' param"@
            },
            DispatchPlan::Run(op) => is_proxy_method(method@) && p.path is Some && plans_op(
                op,
                method@,
                p.path.unwrap(),
                *p,
            ),
        },
{
    proof {
        reveal_strlit("read_file");
        reveal_strlit("write_file");
        reveal_strlit("list_dir");
        reveal_strlit("stat_file");
        reveal_strlit("delete_file");
        reveal_strlit("create_dir");
        reveal_strlit("watch_path");
        reveal_strlit("unwatch_path");
        lemma_write_file_shape(method@);
    }
    let known = str_eq(method, "read_file") || str_eq(method, "write_file") || str_eq(
        method,
        "list_dir",
    ) || str_eq(method, "stat_file") || str_eq(method, "delete_file") || str_eq(
        method,
        "create_dir",
    ) || str_eq(method, "watch_path") || str_eq(method, "unwatch_path");
    if !known {
        let mut message = owned("method not found: ");
        push_str(&mut message, method);
        return DispatchPlan::Reject { code: METHOD_NOT_FOUND, message };
    }
    let path = match &p.path {
        Some(path) => path.clone(),
        None => {
            return DispatchPlan::Reject {
                code: INVALID_PARAMS,
                message: owned("missing 'path' param"),
            };
        },
    };
    let op = if str_eq(method, "read_file") {
        ProxyOp::ReadFile { path }
    } else if str_eq(method, "write_file") {
        ProxyOp::WriteFile { path, content: decode_write_content(&p.content) }
    } else if str_eq(method, "list_dir") {
        ProxyOp::ListDir { path }
    } else if str_eq(method, "stat_file") {
        ProxyOp::StatFile { path }
    } else if str_eq(method, "delete_file") {
        ProxyOp::DeleteFile { path }
    } else if str_eq(method, "create_dir") {
        let recursive = match p.recursive {
            Some(b) => b,
            None => false,
        };
        ProxyOp::CreateDir { path, recursive }
    } else if str_eq(method, "watch_path") {
        ProxyOp::WatchPath { path }
    } else {
        ProxyOp::UnwatchPath { path }
    };
    DispatchPlan::Run(op)
}

// ---------------------------------------------------------------------------
// Reading the parameters
// ---------------------------------------------------------------------------

/// What the JSON parameters hold under one key, as far as the proxy reads it.
#[derive(Debug, Clone, PartialEq, Eq)]
pub enum ParamField {
    /// A JSON string.
    Str(String),
    /// A JSON boolean.
    Bool(bool),
    /// A JSON array: each element as an unsigned integer when it is one.
    Array(Vec<Option<u64>>),
    /// Absent, or any other JSON value.
    Other,
}

/// The JSON parameters of a request, under the keys the proxy reads.
#[derive(Debug, Clone, PartialEq, Eq)]
pub struct JsonParams {
    pub path: ParamField,
    pub recursive: ParamField,
    pub content: ParamField,
}

/// The elements of an array that are unsigned integers, in order.
pub open spec fn keep_numbers(items: Seq<Option<u64>>) -> Seq<u64>
    decreases items.len(),
{
    if items.len() == 0 {
        Seq::<u64>::empty()
    } else {
        let rest = keep_numbers(items.drop_last());
        match items.last() {
            Some(n) => rest.push(n),
            None => rest,
        }
    }
}

/// The parameters the proxy reads from a request's JSON parameters: the string
/// under `"path"`, the boolean under `"recursive"`, and for `"content"` the
/// numbers of an array, else a string; absent parameters hold none of them.
pub fn request_params(params: Option<JsonParams>) -> (r: RequestParams)
    ensures
        params is None ==> r.path is None && r.recursive is None && r.content == WriteContent::Missing,
        params matches Some(p) ==> {
            &&& r.path == (match p.path { ParamField::Str(s) => Some(s), _ => None })
            &&& r.recursive == (match p.recursive { ParamField::Bool(b) => Some(b), _ => None })
            &&& match p.content {
                ParamField::Array(items) => r.content matches WriteContent::Numbers(v) && v@ == keep_numbers(items@),
                ParamField::Str(t) => r.content == WriteContent::Text(t),
                _ => r.content == WriteContent::Missing,
            }
        },
{
    match params {
        None => RequestParams { path: None, recursive: None, content: WriteContent::Missing },
        Some(p) => {
            let path = match p.path {
                ParamField::Str(s) => Some(s),
                _ => None,
            };
            let recursive = match p.recursive {
                ParamField::Bool(b) => Some(b),
                _ => None,
            };
            let content = match p.content {
                ParamField::Array(items) => {
                    let mut nums: Vec<u64> = Vec::new();
                    let mut i: usize = 0;
                    while i < items.len()
                        invariant
                            i <= items@.len(),
                            nums@ == keep_numbers(items@.take(i as int)),
                        decreases items@.len() - i,
                    {
                        assert(items@.take(i + 1).drop_last() =~= items@.take(i as int));
                        match items[i] {
                            Some(n) => nums.push(n),
                            None => {},
                        }
                        i += 1;
                    }
                    assert(items@.take(i as int) =~= items@);
                    WriteContent::Numbers(nums)
                },
                ParamField::Str(t) => WriteContent::Text(t),
                _ => WriteContent::Missing,
            };
            RequestParams { path, recursive, content }
        },
    }
}

} // verus!
