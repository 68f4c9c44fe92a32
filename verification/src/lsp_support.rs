//! Language-server support rules: which server serves a language, what a
//! server's capabilities allow, where an incoming message goes, and the
//! subsystem's errors.
use vstd::prelude::*;
use crate::lsp_frame::{numeric_id_spec, JsonRpcError, JsonRpcMessage};
use crate::text::{owned, push_str, str_eq};

verus! {

// ── Server commands ──────────────────────────────────────────────────────────

/// `which::which`: the full path of an executable found on `PATH`. What it
/// finds depends on the environment and the file system, so nothing is stated
/// of the result.
#[verifier::external_body]
fn find_on_path(name: &str) -> (r: Option<String>) {
    which::which(name).ok().map(|p| p.to_string_lossy().into_owned())
}

/// The command that serves a language, given where `jdtls` was found on the
/// path: Java and Kotlin use `jdtls` (its full path when found, else the bare
/// name); no other language has a server.
pub fn command_for(language_id: &str, jdtls_found: Option<String>) -> (r: Option<(String, Vec<String>)>)
    ensures
        (language_id@ == "java"@ || language_id@ == "kotlin"@) ==> (r matches Some((cmd, args))
            && args@.len() == 0 && match jdtls_found {
            Some(p) => cmd@ == p@,
            None => cmd@ == "jdtls"@,
        }),
        !(language_id@ == "java"@ || language_id@ == "kotlin"@) ==> r is None,
{
    if str_eq(language_id, "java") || str_eq(language_id, "kotlin") {
        let cmd = match jdtls_found {
            Some(p) => p,
            None => owned("jdtls"),
        };
        Some((cmd, Vec::new()))
    } else {
        None
    }
}

/// Map a language ID to a server launch command and arguments; `None` when no
/// server is available for the language.
pub fn server_command(language_id: &str) -> (r: Option<(String, Vec<String>)>)
    ensures
        (language_id@ == "java"@ || language_id@ == "kotlin"@) ==> (r matches Some((cmd, args))
            && args@.len() == 0),
        !(language_id@ == "java"@ || language_id@ == "kotlin"@) ==> r is None,
{
    if str_eq(language_id, "java") || str_eq(language_id, "kotlin") {
        command_for(language_id, find_on_path("jdtls"))
    } else {
        None
    }
}

// ── Capabilities ─────────────────────────────────────────────────────────────

/// How a server advertises one provider: not at all, by a boolean, or by an
/// options object.
#[derive(Debug, Clone, Copy, PartialEq, Eq, Structural)]
pub enum Provider {
    Absent,
    Flag(bool),
    Options,
}

/// How a server advertises document synchronisation.
#[derive(Debug, Clone, Copy, PartialEq, Eq, Structural)]
pub enum SyncCapability {
    Absent,
    /// A sync kind number (0 none, 1 full, 2 incremental).
    Kind(i32),
    /// An options object, with its `change` kind if given.
    Options(Option<i32>),
}

/// What the editor reads of a server's capabilities.
#[derive(Debug, Clone, Copy, PartialEq, Eq, Structural)]
pub struct ServerFeatures {
    pub completion: bool,
    pub hover: Provider,
    pub definition: Provider,
    pub formatting: Provider,
    pub sync: SyncCapability,
}

/// The sync kind that means no synchronisation.
pub const SYNC_NONE: i32 = 0;

pub open spec fn provider_on(p: Provider) -> bool {
    p == Provider::Flag(true) || p == Provider::Options
}

fn provider_enabled(p: Provider) -> (r: bool)
    ensures
        r == provider_on(p),
{
    match p {
        Provider::Flag(b) => b,
        Provider::Options => true,
        Provider::Absent => false,
    }
}

/// Returns `true` if the server advertises completion support.
pub fn supports_completion(caps: &ServerFeatures) -> (r: bool)
    ensures
        r == caps.completion,
{
    caps.completion
}

/// Returns `true` if the server advertises hover support.
pub fn supports_hover(caps: &ServerFeatures) -> (r: bool)
    ensures
        r == provider_on(caps.hover),
{
    provider_enabled(caps.hover)
}

/// Returns `true` if the server advertises go-to-definition support.
pub fn supports_goto_definition(caps: &ServerFeatures) -> (r: bool)
    ensures
        r == provider_on(caps.definition),
{
    provider_enabled(caps.definition)
}

/// Returns `true` if the server advertises document formatting support.
pub fn supports_formatting(caps: &ServerFeatures) -> (r: bool)
    ensures
        r == provider_on(caps.formatting),
{
    provider_enabled(caps.formatting)
}

/// Return the sync kind advertised by the server, defaulting to none.
pub fn text_document_sync_kind(caps: &ServerFeatures) -> (r: i32)
    ensures
        r == match caps.sync {
            SyncCapability::Kind(k) => k,
            SyncCapability::Options(Some(k)) => k,
            _ => SYNC_NONE,
        },
{
    match caps.sync {
        SyncCapability::Kind(k) => k,
        SyncCapability::Options(change) => match change {
            Some(k) => k,
            None => SYNC_NONE,
        },
        SyncCapability::Absent => SYNC_NONE,
    }
}

// ── Incoming messages ────────────────────────────────────────────────────────

/// What the waiter of a request receives.
#[derive(Debug)]
pub enum Reply {
    /// The response's result.
    Result(serde_json::Value),
    /// The response's error.
    Error { code: i32, message: String },
    /// A response with neither.
    Empty,
}

/// Where a message read from the server goes.
#[derive(Debug)]
pub enum Route {
    /// To the waiter of request `id` (a response whose id is not a number
    /// reaches nobody).
    Deliver { id: Option<i64>, reply: Reply },
    /// To the notification listeners (notifications and server requests).
    Broadcast(JsonRpcMessage),
    /// Nowhere: a message with neither an id nor a method.
    Discard,
}

/// Decide where a message from the server goes: a response to the waiter of
/// its id, with its result (or else its error); a notification or a server
/// request to the notification listeners; a message with neither an id nor a
/// method nowhere.
pub fn route_message(msg: JsonRpcMessage) -> (r: Route)
    ensures
        (msg.id is Some && msg.method is None) ==> (r matches Route::Deliver { id, reply } && id == numeric_id_spec(msg.id) && match msg.result {
            Some(v) => reply matches Reply::Result(w) && w == v,
            None => match msg.error {
                Some(e) => reply matches Reply::Error { code, message } && code == e.code && message == e.message,
                None => reply matches Reply::Empty,
            },
        }),
        msg.method is Some ==> (r matches Route::Broadcast(m) && m == msg),
        (msg.id is None && msg.method is None) ==> r is Discard,
{
    if msg.is_response() {
        let id = msg.numeric_id();
        let reply = match msg.result {
            Some(v) => Reply::Result(v),
            None => match msg.error {
                Some(e) => Reply::Error { code: e.code, message: e.message },
                None => Reply::Empty,
            },
        };
        Route::Deliver { id, reply }
    } else if msg.method.is_some() {
        Route::Broadcast(msg)
    } else {
        Route::Discard
    }
}

// ── Errors ───────────────────────────────────────────────────────────────────

/// All errors that can occur in the LSP subsystem.
#[derive(Debug, Clone, PartialEq, Eq)]
pub enum LspError {
    ServerNotFound(String),
    Process(String),
    NotInitialized,
    Timeout,
    ChannelClosed,
    Server { code: i32, message: String },
}

impl LspError {
    /// A human-readable description of the error.
    pub fn message(&self) -> (r: String)
        ensures
            self matches LspError::ServerNotFound(l) ==> r@ == "server not found for language: "@ + l@,
            self matches LspError::Process(m) ==> r@ == "server process error: "@ + m@,
            self matches LspError::NotInitialized ==> r@ == "server not initialized"@,
            self matches LspError::Timeout ==> r@ == "request timeout"@,
            self matches LspError::ChannelClosed ==> r@ == "channel closed"@,
            self matches LspError::Server { code, message } ==> r@ == "lsp error "@
                + crate::envelope::signed_decimal(code as int) + ": "@ + message@,
    {
        match self {
            LspError::ServerNotFound(l) => {
                let mut m = owned("server not found for language: ");
                push_str(&mut m, l.as_str());
                m
            },
            LspError::Process(p) => {
                let mut m = owned("server process error: ");
                push_str(&mut m, p.as_str());
                m
            },
            LspError::NotInitialized => owned("server not initialized"),
            LspError::Timeout => owned("request timeout"),
            LspError::ChannelClosed => owned("channel closed"),
            LspError::Server { code, message } => {
                let mut m = owned("lsp error ");
                let n = crate::envelope::i64_to_decimal(*code as i64);
                push_str(&mut m, n.as_str());
                push_str(&mut m, ": ");
                push_str(&mut m, message.as_str());
                m
            },
        }
    }
}

} // verus!
