//! Shared value types of the editor's RPC protocol.
use vstd::prelude::*;
use crate::text::{decimal, push_str, u64_to_decimal};

verus! {

/// A position in a text document, using zero-based line and character offsets.
#[derive(Debug, Clone, Copy, PartialEq, Eq, Structural)]
pub struct Position {
    pub line: u32,
    pub character: u32,
}

impl Position {
    pub fn new(line: u32, character: u32) -> (p: Self)
        ensures
            p.line == line,
            p.character == character,
    {
        Position { line, character }
    }
}

/// A range in a text document expressed as start and end positions.
#[derive(Debug, Clone, Copy, PartialEq, Eq, Structural)]
pub struct Range {
    pub start: Position,
    pub end: Position,
}

impl Range {
    pub fn new(start: Position, end: Position) -> (r: Self)
        ensures
            r.start == start,
            r.end == end,
    {
        Range { start, end }
    }

    /// A range covering a single line from `start_char` to `end_char`.
    pub fn on_line(line: u32, start_char: u32, end_char: u32) -> (r: Self)
        ensures
            r.start == (Position { line, character: start_char }),
            r.end == (Position { line, character: end_char }),
    {
        Range { start: Position::new(line, start_char), end: Position::new(line, end_char) }
    }
}

/// A textual edit operation: replace `range` with `new_text`.
#[derive(Debug, Clone, PartialEq)]
pub struct TextEdit {
    pub range: Range,
    pub new_text: String,
}

impl TextEdit {
    pub fn new(range: Range, new_text: String) -> (e: Self)
        ensures
            e.range == range,
            e.new_text == new_text,
    {
        TextEdit { range, new_text }
    }
}

/// Severity of a diagnostic message; on the wire it is the number 1 to 4.
#[derive(Debug, Clone, Copy, PartialEq, Eq, Hash, Structural)]
pub enum DiagnosticSeverity {
    Error,
    Warning,
    Information,
    Hint,
}

/// The wire number of a severity.
pub open spec fn severity_code(s: DiagnosticSeverity) -> u8 {
    match s {
        DiagnosticSeverity::Error => 1,
        DiagnosticSeverity::Warning => 2,
        DiagnosticSeverity::Information => 3,
        DiagnosticSeverity::Hint => 4,
    }
}

/// The message of the error returned for a number that names no severity.
pub open spec fn unknown_severity_message(v: u8) -> Seq<char> {
    "unknown DiagnosticSeverity value: "@ + decimal(v as nat)
}

impl DiagnosticSeverity {
    /// The wire number of this severity.
    pub fn to_u8(self) -> (v: u8)
        ensures
            v == severity_code(self),
    {
        match self {
            DiagnosticSeverity::Error => 1,
            DiagnosticSeverity::Warning => 2,
            DiagnosticSeverity::Information => 3,
            DiagnosticSeverity::Hint => 4,
        }
    }

    /// The severity with wire number `v`; an error message for any other number.
    pub fn try_from_u8(v: u8) -> (r: Result<Self, String>)
        ensures
            1 <= v <= 4 <==> r is Ok,
            r matches Ok(s) ==> severity_code(s) == v,
            r matches Err(m) ==> m@ == unknown_severity_message(v),
    {
        match v {
            1 => Ok(DiagnosticSeverity::Error),
            2 => Ok(DiagnosticSeverity::Warning),
            3 => Ok(DiagnosticSeverity::Information),
            4 => Ok(DiagnosticSeverity::Hint),
            _ => {
                let mut m = String::new();
                push_str(&mut m, "unknown DiagnosticSeverity value: ");
                let d = u64_to_decimal(v as u64);
                push_str(&mut m, d.as_str());
                Err(m)
            },
        }
    }
}

/// Converting a severity to its wire number and back gives the same severity.
pub proof fn lemma_severity_code_roundtrip(s: DiagnosticSeverity)
    ensures
        1 <= severity_code(s) <= 4,
        forall|t: DiagnosticSeverity| severity_code(t) == severity_code(s) ==> t == s,
{
}

/// A compiler or linter diagnostic.
#[derive(Debug, Clone, PartialEq)]
pub struct Diagnostic {
    pub range: Range,
    pub severity: DiagnosticSeverity,
    pub code: Option<String>,
    pub source: Option<String>,
    pub message: String,
}

impl Diagnostic {
    pub fn error(range: Range, message: String) -> (d: Self)
        ensures
            d.range == range,
            d.severity == DiagnosticSeverity::Error,
            d.code is None,
            d.source is None,
            d.message == message,
    {
        Diagnostic { range, severity: DiagnosticSeverity::Error, code: None, source: None, message }
    }

    pub fn warning(range: Range, message: String) -> (d: Self)
        ensures
            d.range == range,
            d.severity == DiagnosticSeverity::Warning,
            d.code is None,
            d.source is None,
            d.message == message,
    {
        Diagnostic { range, severity: DiagnosticSeverity::Warning, code: None, source: None, message }
    }
}

/// A location inside a document (URI + range).
#[derive(Debug, Clone, PartialEq)]
pub struct Location {
    pub uri: String,
    pub range: Range,
}

impl Location {
    pub fn new(uri: String, range: Range) -> (l: Self)
        ensures
            l.uri == uri,
            l.range == range,
    {
        Location { uri, range }
    }
}

/// A completion item returned by the language server.
#[derive(Debug, Clone, PartialEq)]
pub struct CompletionItem {
    pub label: String,
    pub kind: Option<u32>,
    pub detail: Option<String>,
    pub documentation: Option<String>,
    pub insert_text: Option<String>,
}

impl CompletionItem {
    /// An item with only a label.
    pub fn simple(label: String) -> (c: Self)
        ensures
            c.label == label,
            c.kind is None,
            c.detail is None,
            c.documentation is None,
            c.insert_text is None,
    {
        CompletionItem { label, kind: None, detail: None, documentation: None, insert_text: None }
    }
}

/// Symbol information for workspace-wide symbol search.
#[derive(Debug, Clone, PartialEq)]
pub struct SymbolInformation {
    pub name: String,
    /// LSP SymbolKind value (1 = File, 2 = Module, 5 = Class, 6 = Method, ...).
    pub kind: u32,
    pub location: Location,
    pub container_name: Option<String>,
}

/// The kind of a file system change event.
#[derive(Debug, Clone, Copy, PartialEq, Eq, Structural)]
pub enum FileEventKind {
    Created,
    Changed,
    Deleted,
}

/// A file system change event.
#[derive(Debug, Clone, PartialEq)]
pub struct FileEvent {
    pub uri: String,
    pub kind: FileEventKind,
}

impl FileEvent {
    pub fn new(uri: String, kind: FileEventKind) -> (e: Self)
        ensures
            e.uri == uri,
            e.kind == kind,
    {
        FileEvent { uri, kind }
    }
}

/// The category of a build error.
#[derive(Debug, Clone, Copy, PartialEq, Eq, Structural)]
pub enum BuildErrorKind {
    Compile,
    Dependency,
    Gradle,
    Sdk,
}

/// A structured build error, optionally tied to a file location.
#[derive(Debug, Clone, PartialEq)]
pub struct BuildError {
    pub file: Option<String>,
    pub line: Option<u32>,
    pub column: Option<u32>,
    pub message: String,
    pub kind: BuildErrorKind,
}

/// The value of a build error, with its strings taken by their characters.
pub struct BuildErrorView {
    pub file: Option<Seq<char>>,
    pub line: Option<u32>,
    pub column: Option<u32>,
    pub message: Seq<char>,
    pub kind: BuildErrorKind,
}

/// The characters of an optional string.
pub open spec fn opt_string_view(o: Option<String>) -> Option<Seq<char>> {
    match o {
        Some(s) => Some(s@),
        None => None,
    }
}

impl View for BuildError {
    type V = BuildErrorView;

    open spec fn view(&self) -> BuildErrorView {
        BuildErrorView {
            file: opt_string_view(self.file),
            line: self.line,
            column: self.column,
            message: self.message@,
            kind: self.kind,
        }
    }
}

/// A copy of an optional string.
pub fn copy_opt_string(o: &Option<String>) -> (r: Option<String>)
    ensures
        opt_string_view(r) == opt_string_view(*o),
{
    match o {
        Some(s) => Some(s.clone()),
        None => None,
    }
}

impl BuildError {
    /// A copy of this error.
    pub fn duplicate(&self) -> (r: Self)
        ensures
            r@ == self@,
    {
        BuildError {
            file: copy_opt_string(&self.file),
            line: self.line,
            column: self.column,
            message: self.message.clone(),
            kind: self.kind,
        }
    }

    pub fn new(message: String, kind: BuildErrorKind) -> (e: Self)
        ensures
            e.file is None,
            e.line is None,
            e.column is None,
            e.message == message,
            e.kind == kind,
    {
        BuildError { file: None, line: None, column: None, message, kind }
    }

    /// A compile error with no location.
    pub fn compile(message: String) -> (e: Self)
        ensures
            e.file is None,
            e.line is None,
            e.column is None,
            e.message == message,
            e.kind == BuildErrorKind::Compile,
    {
        Self::new(message, BuildErrorKind::Compile)
    }
}

/// Events emitted by the build subsystem.
#[derive(Debug, Clone, PartialEq)]
pub enum BuildEvent {
    OutputLine(String),
    ErrorDetected(BuildError),
    Finished { exit_code: i32, errors: Vec<BuildError> },
}

/// Log message severity level.
#[derive(Debug, Clone, Copy, PartialEq, Eq, Structural)]
pub enum LogLevel {
    Error,
    Warn,
    Info,
    Debug,
    Trace,
}

/// An entry in a directory listing.
#[derive(Debug, Clone, PartialEq)]
pub struct DirEntry {
    pub name: String,
    pub path: String,
    pub is_dir: bool,
    pub size: u64,
    pub modified_ms: Option<i64>,
}

/// Metadata for a single file system path.
#[derive(Debug, Clone, PartialEq)]
pub struct FileStat {
    pub path: String,
    pub size: u64,
    pub is_dir: bool,
    pub is_symlink: bool,
    pub modified_ms: Option<i64>,
}

} // verus!
