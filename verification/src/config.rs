//! Editor, FTC and Git settings.
use vstd::prelude::*;

verus! {

/// The line-ending convention used when writing files.
#[derive(Debug, Clone, Copy, PartialEq, Eq, Structural)]
pub enum LineEnding {
    /// Unix-style LF.
    Lf,
    /// Windows-style CRLF.
    CrLf,
    /// Classic Mac CR.
    Cr,
}

/// The characters that end a line under each convention.
pub open spec fn line_ending_text(e: LineEnding) -> Seq<char> {
    match e {
        LineEnding::Lf => seq!['\n'],
        LineEnding::CrLf => seq!['\r', '\n'],
        LineEnding::Cr => seq!['\r'],
    }
}

impl LineEnding {
    /// The character sequence for this line ending.
    pub fn as_str(&self) -> (s: &'static str)
        ensures
            s@ == line_ending_text(*self),
    {
        proof {
            reveal_strlit("\n");
            reveal_strlit("\r\n");
            reveal_strlit("\r");
        }
        match self {
            LineEnding::Lf => "\n",
            LineEnding::CrLf => "\r\n",
            LineEnding::Cr => "\r",
        }
    }
}

impl Default for LineEnding {
    fn default() -> (e: Self)
        ensures
            e == LineEnding::Lf,
    {
        LineEnding::Lf
    }
}

/// FTC-SDK-specific settings.
#[derive(Debug, Clone, PartialEq)]
pub struct FtcConfig {
    /// Path of the FTC SDK, when one is configured.
    pub sdk_path: Option<String>,
    pub jdtls_heap_mb: u32,
    pub telemetry_port: u16,
    pub auto_repair: bool,
    pub team_number: Option<u32>,
}

impl Default for FtcConfig {
    fn default() -> (c: Self)
        ensures
            c.sdk_path is None,
            c.jdtls_heap_mb == 512,
            c.telemetry_port == 5800,
            c.auto_repair,
            c.team_number is None,
    {
        FtcConfig { sdk_path: None, jdtls_heap_mb: 512, telemetry_port: 5800, auto_repair: true, team_number: None }
    }
}

/// Git-integration settings.
#[derive(Debug, Clone, PartialEq)]
pub struct GitConfig {
    pub auto_stage: bool,
    pub sign_commits: bool,
    pub default_branch: String,
}

impl Default for GitConfig {
    fn default() -> (c: Self)
        ensures
            !c.auto_stage,
            !c.sign_commits,
            c.default_branch@ == "main"@,
    {
        GitConfig { auto_stage: false, sign_commits: false, default_branch: String::from_str("main") }
    }
}

} // verus!
