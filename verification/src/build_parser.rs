//! Line-by-line recognition of errors in Gradle build output.
use vstd::prelude::*;
use crate::patterns::{Pattern, compile, captures, is_match, regex_valid, regex_captures, regex_is_match};
use crate::text::{owned, parse_u32, parse_u32_spec, push_str};
use crate::types::{BuildError, BuildErrorKind, BuildErrorView, BuildEvent};

verus! {

/// `File.java:42: error: message` (also `.kt`).
pub open spec fn compile_error_pattern() -> Seq<char> {
    "^(.+\\.(?:java|kt)):\\s*(\\d+):\\s*error:\\s*(.+)$"@
}

/// `Could not resolve group:artifact:version`.
pub open spec fn dep_resolve_pattern() -> Seq<char> {
    "Could not resolve ([^\\s:]+:[^\\s:]+:[^\\s]+)"@
}

/// A dependency coordinate of the FTC SDK.
pub open spec fn sdk_version_pattern() -> Seq<char> {
    "ftc-sdk:([0-9]+\\.[0-9]+(?:\\.[0-9]+)?)"@
}

/// The start of Gradle's failure report.
pub open spec fn gradle_failure_pattern() -> Seq<char> {
    "^FAILURE:|^BUILD FAILED"@
}

/// Gradle's success line.
pub open spec fn gradle_success_pattern() -> Seq<char> {
    "^BUILD SUCCESSFUL"@
}

/// `> Task :name`.
pub open spec fn task_line_pattern() -> Seq<char> {
    "^> Task :([^\\s]+)"@
}

/// The abstract state of the parser: errors found so far, the current task, and
/// whether the failure report has started.
pub struct ParserState {
    pub errors: Seq<BuildErrorView>,
    pub current_task: Option<Seq<char>>,
    pub in_failure_section: bool,
}

/// The text of capture group `i`, when the match has such a group and it took part.
pub open spec fn group(g: Seq<Option<Seq<char>>>, i: int) -> Option<Seq<char>> {
    if 0 <= i < g.len() { g[i] } else { None }
}

/// The error reported for a compile-error line, if the line is one.
pub open spec fn compile_error_of(line: Seq<char>) -> Option<BuildErrorView> {
    match regex_captures(compile_error_pattern(), line) {
        Some((_, g)) => {
            if group(g, 1) is Some && group(g, 2) is Some && group(g, 3) is Some {
                Some(BuildErrorView {
                    file: group(g, 1),
                    line: Some(match parse_u32_spec(group(g, 2)->0) { Some(n) => n, None => 0 }),
                    column: None,
                    message: group(g, 3)->0,
                    kind: BuildErrorKind::Compile,
                })
            } else {
                None
            }
        },
        None => None,
    }
}

/// The error reported for a line naming an unresolvable dependency, if the line is one.
pub open spec fn dependency_error_of(line: Seq<char>) -> Option<BuildErrorView> {
    match regex_captures(dep_resolve_pattern(), line) {
        Some((_, g)) => {
            if group(g, 1) is Some {
                let dep = group(g, 1)->0;
                Some(BuildErrorView {
                    file: None,
                    line: None,
                    column: None,
                    message: "Could not resolve "@ + dep,
                    kind: if regex_is_match(sdk_version_pattern(), dep) {
                        BuildErrorKind::Sdk
                    } else {
                        BuildErrorKind::Dependency
                    },
                })
            } else {
                None
            }
        },
        None => None,
    }
}

/// The parser's state after one more line, and the error that line reports.
pub open spec fn feed_spec(st: ParserState, line: Seq<char>) -> (ParserState, Option<BuildErrorView>) {
    let task = match regex_captures(task_line_pattern(), line) {
        Some((_, g)) => if group(g, 1) is Some { group(g, 1) } else { st.current_task },
        None => st.current_task,
    };
    let failing = if regex_is_match(gradle_success_pattern(), line) {
        false
    } else if regex_is_match(gradle_failure_pattern(), line) {
        true
    } else {
        st.in_failure_section
    };
    let err = if compile_error_of(line) is Some { compile_error_of(line) } else { dependency_error_of(line) };
    let errors = match err {
        Some(e) => st.errors.push(e),
        None => st.errors,
    };
    (ParserState { errors, current_task: task, in_failure_section: failing }, err)
}

/// Feeding a line keeps every error found so far, in order, and adds exactly
/// the error the line reports; a line reports one when it is a compile error or
/// names a dependency that could not be resolved.
pub proof fn lemma_feed_appends_reported_error(st: ParserState, line: Seq<char>)
    ensures
        match feed_spec(st, line).1 {
            Some(e) => feed_spec(st, line).0.errors == st.errors.push(e),
            None => feed_spec(st, line).0.errors == st.errors,
        },
        feed_spec(st, line).1 is Some <==> (compile_error_of(line) is Some || dependency_error_of(line) is Some),
{
}

struct ParserPatterns {
    compile_err: Pattern,
    dep_resolve: Pattern,
    sdk_version: Pattern,
    gradle_failure: Pattern,
    gradle_success: Pattern,
    task_line: Pattern,
}

impl ParserPatterns {
    /// Each expression was compiled from its pattern.
    #[verifier::type_invariant]
    spec fn compiled_from_patterns(self) -> bool {
        &&& self.compile_err@ == compile_error_pattern()
        &&& self.dep_resolve@ == dep_resolve_pattern()
        &&& self.sdk_version@ == sdk_version_pattern()
        &&& self.gradle_failure@ == gradle_failure_pattern()
        &&& self.gradle_success@ == gradle_success_pattern()
        &&& self.task_line@ == task_line_pattern()
    }
}

/// Stateful line-by-line parser for Gradle build output.
pub struct BuildOutputParser {
    errors: Vec<BuildError>,
    current_task: Option<String>,
    in_failure_section: bool,
    patterns: Option<ParserPatterns>,
}

impl View for BuildOutputParser {
    type V = ParserState;

    closed spec fn view(&self) -> ParserState {
        ParserState {
            errors: self.errors@.map_values(|e: BuildError| e@),
            current_task: crate::types::opt_string_view(self.current_task),
            in_failure_section: self.in_failure_section,
        }
    }
}

/// Whether every pattern the parser uses is accepted by the `regex` crate.
pub open spec fn parser_patterns_valid() -> bool {
    &&& regex_valid(compile_error_pattern())
    &&& regex_valid(dep_resolve_pattern())
    &&& regex_valid(sdk_version_pattern())
    &&& regex_valid(gradle_failure_pattern())
    &&& regex_valid(gradle_success_pattern())
    &&& regex_valid(task_line_pattern())
}

impl BuildOutputParser {
    /// Whether the parser holds its compiled patterns (it does exactly when they are valid).
    pub closed spec fn ready(&self) -> bool {
        self.patterns is Some
    }

    /// A parser with no errors, no current task, outside any failure report.
    pub fn new() -> (p: Self)
        ensures
            p@.errors.len() == 0,
            p@.current_task is None,
            !p@.in_failure_section,
            p.ready() <==> parser_patterns_valid(),
    {
        let a = compile("^(.+\\.(?:java|kt)):\\s*(\\d+):\\s*error:\\s*(.+)$");
        let b = compile("Could not resolve ([^\\s:]+:[^\\s:]+:[^\\s]+)");
        let c = compile("ftc-sdk:([0-9]+\\.[0-9]+(?:\\.[0-9]+)?)");
        let d = compile("^FAILURE:|^BUILD FAILED");
        let e = compile("^BUILD SUCCESSFUL");
        let f = compile("^> Task :([^\\s]+)");
        let patterns = match (a, b, c, d, e, f) {
            (Some(a), Some(b), Some(c), Some(d), Some(e), Some(f)) => Some(ParserPatterns {
                compile_err: a,
                dep_resolve: b,
                sdk_version: c,
                gradle_failure: d,
                gradle_success: e,
                task_line: f,
            }),
            _ => None,
        };
        let p = BuildOutputParser { errors: Vec::new(), current_task: None, in_failure_section: false, patterns };
        assert(p@.errors =~= Seq::<BuildErrorView>::empty());
        p
    }

    /// Feeds one line of output. Returns the error it reports, if any; the error
    /// is also kept. A parser without its patterns (see `ready`) ignores the line.
    pub fn feed_line(&mut self, line: &str) -> (r: Option<BuildEvent>)
        ensures
            old(self).ready() ==> final(self)@ == feed_spec(old(self)@, line@).0,
            old(self).ready() ==> (r is Some <==> feed_spec(old(self)@, line@).1 is Some),
            old(self).ready() ==> (r matches Some(ev) ==> ev matches BuildEvent::ErrorDetected(e)
                && e@ == feed_spec(old(self)@, line@).1->0),
            !old(self).ready() ==> final(self)@ == old(self)@ && r is None,
            final(self).ready() == old(self).ready(),
            r matches Some(ev) ==> ev matches BuildEvent::ErrorDetected(e)
                && final(self)@.errors == old(self)@.errors.push(e@),
            r is None ==> final(self)@.errors == old(self)@.errors,
    {
        proof {
            lemma_feed_appends_reported_error(self@, line@);
        }
        let ghost st = self@;
        let pats = match &self.patterns {
            Some(p) => p,
            None => return None,
        };
        proof { use_type_invariant(pats); }
        // Track the current task.
        match captures(&pats.task_line, line) {
            Some((_, g)) => {
                if g.len() > 1 {
                    match &g[1] {
                        Some(t) => { self.current_task = Some(t.clone()); },
                        None => {},
                    }
                }
            },
            None => {},
        }
        // Track the failure section.
        if is_match(&pats.gradle_failure, line) {
            self.in_failure_section = true;
        }
        if is_match(&pats.gradle_success, line) {
            self.in_failure_section = false;
        }
        // Compile error: File.java:42: error: message
        match captures(&pats.compile_err, line) {
            Some((_, g)) => {
                if g.len() > 3 {
                    match (&g[1], &g[2], &g[3]) {
                        (Some(file), Some(num), Some(msg)) => {
                            let line_num = match parse_u32(num.as_str()) { Some(n) => n, None => 0 };
                            let error = BuildError {
                                file: Some(file.clone()),
                                line: Some(line_num),
                                column: None,
                                message: msg.clone(),
                                kind: BuildErrorKind::Compile,
                            };
                            let ghost ev = error@;
                            self.errors.push(error.duplicate());
                            proof {
                                assert(self.errors@.map_values(|e: BuildError| e@)
                                    =~= st.errors.push(ev));
                            }
                            return Some(BuildEvent::ErrorDetected(error));
                        },
                        _ => {},
                    }
                }
            },
            None => {},
        }
        // Dependency that could not be resolved (an SDK one when it names the FTC SDK).
        match captures(&pats.dep_resolve, line) {
            Some((_, g)) => {
                if g.len() > 1 {
                    match &g[1] {
                        Some(dep) => {
                            let kind = if is_match(&pats.sdk_version, dep.as_str()) {
                                BuildErrorKind::Sdk
                            } else {
                                BuildErrorKind::Dependency
                            };
                            let mut message = owned("Could not resolve ");
                            push_str(&mut message, dep.as_str());
                            let error = BuildError { file: None, line: None, column: None, message, kind };
                            let ghost ev = error@;
                            self.errors.push(error.duplicate());
                            proof {
                                assert(self.errors@.map_values(|e: BuildError| e@)
                                    =~= st.errors.push(ev));
                            }
                            return Some(BuildEvent::ErrorDetected(error));
                        },
                        None => {},
                    }
                }
            },
            None => {},
        }
        None
    }

    /// The collected errors, consuming the parser.
    pub fn finish(self) -> (r: Vec<BuildError>)
        ensures
            r@.map_values(|e: BuildError| e@) == self@.errors,
    {
        self.errors
    }

    /// The errors collected so far.
    pub fn errors(&self) -> (r: &[BuildError])
        ensures
            r@.map_values(|e: BuildError| e@) == self@.errors,
    {
        self.errors.as_slice()
    }

    /// The task named by the latest `> Task :name` line, if any.
    pub fn current_task(&self) -> (r: Option<String>)
        ensures
            crate::types::opt_string_view(r) == self@.current_task,
    {
        self.current_task.clone()
    }
}

} // verus!
