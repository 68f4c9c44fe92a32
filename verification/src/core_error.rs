//! The errors of the editor core.
use vstd::prelude::*;
use crate::text::{decimal, owned, push_str, u64_to_decimal};

verus! {

/// The primary error type for editor-core operations.
#[derive(Debug, Clone, PartialEq, Eq)]
pub enum CoreError {
    Buffer(String),
    Syntax(String),
    Config(String),
    Search(String),
    DocumentNotFound { uri: String },
    InvalidPosition { line: u32, col: u32 },
}

/// The text of a core error.
pub open spec fn core_error_message(e: CoreError) -> Seq<char> {
    match e {
        CoreError::Buffer(m) => "buffer: "@ + m@,
        CoreError::Syntax(m) => "syntax: "@ + m@,
        CoreError::Config(m) => "config: "@ + m@,
        CoreError::Search(m) => "search: "@ + m@,
        CoreError::DocumentNotFound { uri } => "document not found: "@ + uri@,
        CoreError::InvalidPosition { line, col } => "invalid position: line "@ + decimal(line as nat)
            + " col "@ + decimal(col as nat),
    }
}

fn prefixed(prefix: &str, m: &String) -> (r: String)
    ensures
        r@ == prefix@ + m@,
{
    let mut r = owned(prefix);
    push_str(&mut r, m.as_str());
    r
}

impl CoreError {
    /// A human-readable description of the error.
    pub fn message(&self) -> (r: String)
        ensures
            r@ == core_error_message(*self),
    {
        match self {
            CoreError::Buffer(m) => prefixed("buffer: ", m),
            CoreError::Syntax(m) => prefixed("syntax: ", m),
            CoreError::Config(m) => prefixed("config: ", m),
            CoreError::Search(m) => prefixed("search: ", m),
            CoreError::DocumentNotFound { uri } => prefixed("document not found: ", uri),
            CoreError::InvalidPosition { line, col } => {
                let mut r = owned("invalid position: line ");
                push_str(&mut r, u64_to_decimal(*line as u64).as_str());
                push_str(&mut r, " col ");
                push_str(&mut r, u64_to_decimal(*col as u64).as_str());
                r
            },
        }
    }
}

} // verus!
