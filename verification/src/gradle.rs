//! Gradle tasks, the events of a build run, and how an FTC project is recognised.
use vstd::prelude::*;
use crate::build_parser::{feed_spec, group, BuildOutputParser, ParserState};
use crate::patterns::{captures, compile, is_match, regex_captures, regex_is_match, regex_valid};
use crate::text::{contains_seq, owned, push_str, split_whitespace, str_contains, words};
use crate::types::{BuildError, BuildErrorView, BuildEvent};

verus! {

// ── Task ──────────────────────────────────────────────────────────────────────

/// A Gradle task or set of tasks to run.
#[derive(Debug, Clone, PartialEq, Eq)]
pub enum GradleTask {
    Build,
    AssembleDebug,
    AssembleRelease,
    Clean,
    CleanBuild,
    InstallDebug,
    Test,
    Custom(String),
}

pub open spec fn task_text(t: GradleTask) -> Seq<char> {
    match t {
        GradleTask::Build => "build"@,
        GradleTask::AssembleDebug => "assembleDebug"@,
        GradleTask::AssembleRelease => "assembleRelease"@,
        GradleTask::Clean => "clean"@,
        GradleTask::CleanBuild => "clean build"@,
        GradleTask::InstallDebug => "installDebug"@,
        GradleTask::Test => "test"@,
        GradleTask::Custom(s) => s@,
    }
}

impl GradleTask {
    pub fn as_str(&self) -> (r: &str)
        ensures
            r@ == task_text(*self),
    {
        match self {
            GradleTask::Build => "build",
            GradleTask::AssembleDebug => "assembleDebug",
            GradleTask::AssembleRelease => "assembleRelease",
            GradleTask::Clean => "clean",
            GradleTask::CleanBuild => "clean build",
            GradleTask::InstallDebug => "installDebug",
            GradleTask::Test => "test",
            GradleTask::Custom(s) => s.as_str(),
        }
    }
}

/// The words of the tasks, in order.
pub open spec fn task_words(tasks: Seq<GradleTask>) -> Seq<Seq<char>>
    decreases tasks.len(),
{
    if tasks.len() == 0 {
        Seq::<Seq<char>>::empty()
    } else {
        task_words(tasks.drop_last()) + words(task_text(tasks.last()))
    }
}

/// The command-line arguments of a run: each task's words (a clean build is two
/// tasks), then `--no-daemon --console=plain`.
pub open spec fn gradle_args_spec(tasks: Seq<GradleTask>) -> Seq<Seq<char>> {
    task_words(tasks) + seq!["--no-daemon"@, "--console=plain"@]
}

/// Build the argument list of a Gradle run.
pub fn gradle_args(tasks: &[GradleTask]) -> (r: Vec<String>)
    ensures
        r@.map_values(|a: String| a@) == gradle_args_spec(tasks@),
{
    let mut args: Vec<String> = Vec::new();
    let mut i: usize = 0;
    while i < tasks.len()
        invariant
            i <= tasks@.len(),
            args@.map_values(|a: String| a@) == task_words(tasks@.take(i as int)),
        decreases tasks@.len() - i,
    {
        let ws = split_whitespace(tasks[i].as_str());
        let mut j: usize = 0;
        let ghost start = args@.map_values(|a: String| a@);
        while j < ws.len()
            invariant
                j <= ws@.len(),
                args@.map_values(|a: String| a@) == start + ws@.map_values(|w: String| w@).take(j as int),
            decreases ws@.len() - j,
        {
            let ghost before = args@.map_values(|a: String| a@);
            args.push(owned(ws[j].as_str()));
            assert(args@.map_values(|a: String| a@) =~= before.push(ws@[j as int]@));
            assert(ws@.map_values(|w: String| w@).take(j + 1) =~= ws@.map_values(|w: String| w@).take(j as int).push(ws@[j as int]@));
            j += 1;
        }
        assert(ws@.map_values(|w: String| w@).take(j as int) =~= ws@.map_values(|w: String| w@));
        assert(tasks@.take(i + 1).drop_last() =~= tasks@.take(i as int));
        i += 1;
    }
    assert(tasks@.take(i as int) =~= tasks@);
    let ghost before = args@.map_values(|a: String| a@);
    args.push(owned("--no-daemon"));
    args.push(owned("--console=plain"));
    assert(args@.map_values(|a: String| a@) =~= before + seq!["--no-daemon"@, "--console=plain"@]);
    args
}

// ── A build run ───────────────────────────────────────────────────────────────

/// The decisions of a running build: the events each output line gives, and
/// the final event when the process ends or the run is cancelled.
pub struct BuildSession {
    parser: BuildOutputParser,
}

/// The exit code reported for a cancelled build.
pub const CANCELLED_EXIT_CODE: i32 = -1;

impl BuildSession {
    /// The state of the output parser.
    pub closed spec fn state(&self) -> ParserState {
        self.parser@
    }

    /// Whether the parser holds its patterns.
    pub closed spec fn ready(&self) -> bool {
        self.parser.ready()
    }

    pub fn new() -> (s: Self)
        ensures
            s.state().errors.len() == 0,
            s.state().current_task is None,
            !s.state().in_failure_section,
            s.ready() <==> crate::build_parser::parser_patterns_valid(),
    {
        BuildSession { parser: BuildOutputParser::new() }
    }

    /// The events to broadcast for one line of output: the line itself, then
    /// the error the line reports, if any.
    pub fn on_line(&mut self, line: String) -> (r: Vec<BuildEvent>)
        ensures
            r@.len() >= 1,
            r@[0] == BuildEvent::OutputLine(line),
            old(self).ready() ==> final(self).state() == feed_spec(old(self).state(), line@).0,
            old(self).ready() ==> (r@.len() == 2 <==> feed_spec(old(self).state(), line@).1 is Some),
            old(self).ready() && r@.len() == 2 ==> (r@[1] matches BuildEvent::ErrorDetected(e)
                && e@ == feed_spec(old(self).state(), line@).1->0),
            !old(self).ready() ==> r@.len() == 1 && final(self).state() == old(self).state(),
            r@.len() <= 2,
            final(self).ready() == old(self).ready(),
    {
        let event = self.parser.feed_line(line.as_str());
        let mut out: Vec<BuildEvent> = Vec::new();
        out.push(BuildEvent::OutputLine(line));
        match event {
            Some(e) => out.push(e),
            None => {},
        }
        out
    }

    /// The final event: the exit code (`CANCELLED_EXIT_CODE` for a cancelled
    /// run) and every error found.
    pub fn finish(self, exit_code: i32) -> (r: BuildEvent)
        ensures
            r matches BuildEvent::Finished { exit_code: c, errors } && c == exit_code
                && errors@.map_values(|e: BuildError| e@) == self.state().errors,
    {
        BuildEvent::Finished { exit_code, errors: self.parser.finish() }
    }
}

/// How many directories, the start among them, the project search looks at.
pub const MAX_PARENT_LEVELS: usize = 7;

// ── Errors ────────────────────────────────────────────────────────────────────

/// Errors from the Gradle build subsystem.
#[derive(Debug, Clone, PartialEq, Eq)]
pub enum GradleError {
    NotFtcProject { path: String },
    GradlewNotFound { path: String },
    BuildFailed(i32),
    Cancelled,
    Parse(String),
}

impl GradleError {
    /// A human-readable description of the error.
    pub fn message(&self) -> (r: String)
        ensures
            self matches GradleError::NotFtcProject { path } ==> r@ == "not an FTC project: "@ + path@,
            self matches GradleError::GradlewNotFound { path } ==> r@ == "gradlew not found in: "@ + path@,
            self matches GradleError::BuildFailed(c) ==> r@ == "build failed with exit code "@
                + crate::envelope::signed_decimal(c as int),
            self matches GradleError::Cancelled ==> r@ == "build was cancelled"@,
            self matches GradleError::Parse(m) ==> r@ == "parse error: "@ + m@,
    {
        match self {
            GradleError::NotFtcProject { path } => {
                let mut m = owned("not an FTC project: ");
                push_str(&mut m, path.as_str());
                m
            },
            GradleError::GradlewNotFound { path } => {
                let mut m = owned("gradlew not found in: ");
                push_str(&mut m, path.as_str());
                m
            },
            GradleError::BuildFailed(c) => {
                let mut m = owned("build failed with exit code ");
                let n = crate::envelope::i64_to_decimal(*c as i64);
                push_str(&mut m, n.as_str());
                m
            },
            GradleError::Cancelled => owned("build was cancelled"),
            GradleError::Parse(p) => {
                let mut m = owned("parse error: ");
                push_str(&mut m, p.as_str());
                m
            },
        }
    }
}

// ── Project recognition ───────────────────────────────────────────────────────

/// Names that mark FTC code in a `build.gradle`.
pub open spec fn ftc_marker_pattern() -> Seq<char> {
    "(?:com\\.qualcomm\\.robotcore|FtcRobotController|TeamCode)"@
}

/// The FTC SDK dependency and its version.
pub open spec fn sdk_version_pattern() -> Seq<char> {
    "ftc-sdk:([0-9]+\\.[0-9]+(?:\\.[0-9]+)?)"@
}

/// Whether a directory is an FTC project root, from what it holds: it needs
/// `gradlew`, and then a `build.gradle` that names FTC code (by a valid marker
/// pattern), a
/// `settings.gradle` that mentions `TeamCode` or `FtcRobotController`, or a
/// `TeamCode` or `FtcRobotController` directory.
pub open spec fn looks_like_ftc_root_spec(
    has_gradlew: bool,
    build_gradle: Option<Seq<char>>,
    settings_gradle: Option<Seq<char>>,
    has_team_code: bool,
    has_robot_controller: bool,
) -> bool {
    &&& has_gradlew
    &&& {
        ||| (build_gradle matches Some(b) && regex_valid(ftc_marker_pattern()) && regex_is_match(
            ftc_marker_pattern(),
            b,
        ))
        ||| (settings_gradle matches Some(s) && (contains_seq(s, "TeamCode"@) || contains_seq(
            s,
            "FtcRobotController"@,
        )))
        ||| has_team_code
        ||| has_robot_controller
    }
}

/// Decide whether a directory is an FTC project root. `build_gradle` and
/// `settings_gradle` are the contents of those files when they could be read.
pub fn looks_like_ftc_root(
    has_gradlew: bool,
    build_gradle: Option<&str>,
    settings_gradle: Option<&str>,
    has_team_code: bool,
    has_robot_controller: bool,
) -> (r: bool)
    ensures
        r == looks_like_ftc_root_spec(
            has_gradlew,
            match build_gradle {
                Some(b) => Some(b@),
                None => None,
            },
            match settings_gradle {
                Some(s) => Some(s@),
                None => None,
            },
            has_team_code,
            has_robot_controller,
        ),
{
    if !has_gradlew {
        return false;
    }
    match build_gradle {
        Some(content) => {
            match compile("(?:com\\.qualcomm\\.robotcore|FtcRobotController|TeamCode)") {
                Some(re) => {
                    if is_match(&re, content) {
                        return true;
                    }
                },
                None => {},
            }
        },
        None => {},
    }
    match settings_gradle {
        Some(content) => {
            if str_contains(content, "TeamCode") || str_contains(content, "FtcRobotController") {
                return true;
            }
        },
        None => {},
    }
    has_team_code || has_robot_controller
}

/// The FTC SDK version a `build.gradle` depends on.
pub open spec fn sdk_version_spec(build_gradle: Seq<char>) -> Option<Seq<char>> {
    match regex_captures(sdk_version_pattern(), build_gradle) {
        Some((_, g)) => group(g, 1),
        None => None,
    }
}

/// Parse `build.gradle` text for the `ftc-sdk` version string.
pub fn parse_sdk_version(build_gradle: &str) -> (r: Option<String>)
    ensures
        regex_valid(sdk_version_pattern()) ==> crate::types::opt_string_view(r) == sdk_version_spec(
            build_gradle@,
        ),
        !regex_valid(sdk_version_pattern()) ==> r is None,
{
    let re = match compile("ftc-sdk:([0-9]+\\.[0-9]+(?:\\.[0-9]+)?)") {
        Some(re) => re,
        None => return None,
    };
    match captures(&re, build_gradle) {
        Some((_, g)) => {
            if 1 < g.len() {
                match &g[1] {
                    Some(v) => Some(v.clone()),
                    None => None,
                }
            } else {
                None
            }
        },
        None => None,
    }
}

/// What `Path::join` gives for a base and a relative part, both strings.
pub uninterp spec fn path_join(base: Seq<char>, part: Seq<char>) -> Seq<char>;

/// `std::path::Path::join` of strings; the result is `path_join` of them.
#[verifier::external_body]
pub(crate) fn join_path(base: &str, part: &str) -> (r: String)
    ensures
        r@ == path_join(base@, part@),
{
    std::path::Path::new(base).join(part).to_string_lossy().into_owned()
}

/// Where the TeamCode sources may be, in order of preference.
pub open spec fn team_code_candidates_spec(root: Seq<char>) -> Seq<Seq<char>> {
    seq![
        path_join(root, "TeamCode/src/main/java"@),
        path_join(root, "FtcRobotController/TeamCode/src/main/java"@),
        path_join(root, "src/main/java"@),
    ]
}

/// The candidate TeamCode source directories of a project root.
pub fn team_code_candidates(root: &str) -> (r: Vec<String>)
    ensures
        r@.map_values(|c: String| c@) == team_code_candidates_spec(root@),
{
    let a = join_path(root, "TeamCode/src/main/java");
    let b = join_path(root, "FtcRobotController/TeamCode/src/main/java");
    let c = join_path(root, "src/main/java");
    let r = vec![a, b, c];
    assert(r@.map_values(|c: String| c@) =~= team_code_candidates_spec(root@));
    r
}

/// The first candidate that exists, or the first candidate when none does.
pub fn pick_team_code_dir(candidates: &Vec<String>, exists: &Vec<bool>) -> (r: String)
    requires
        candidates@.len() > 0,
        exists@.len() == candidates@.len(),
    ensures
        (exists|i: int| 0 <= i < exists@.len() && exists@[i]) ==> exists|i: int|
            0 <= i < exists@.len() && exists@[i] && r@ == candidates@[i]@ && (forall|j: int|
                0 <= j < i ==> !exists@[j]),
        (forall|i: int| 0 <= i < exists@.len() ==> !exists@[i]) ==> r@ == candidates@[0]@,
{
    let mut i: usize = 0;
    while i < candidates.len()
        invariant
            i <= candidates@.len(),
            exists@.len() == candidates@.len(),
            forall|j: int| 0 <= j < i ==> !exists@[j],
        decreases candidates@.len() - i,
    {
        if exists[i] {
            return owned(candidates[i].as_str());
        }
        i += 1;
    }
    owned(candidates[0].as_str())
}

/// A detected FTC project rooted at a directory containing gradlew.
#[derive(Debug, Clone)]
pub struct FtcProject {
    pub root: String,
    /// TeamCode/src/main/java or similar
    pub team_code_dir: String,
    /// root build.gradle
    pub build_gradle: String,
    pub local_properties: Option<String>,
    /// e.g. "9.2"
    pub sdk_version: Option<String>,
    pub gradlew: String,
    pub has_kotlin: bool,
}

impl FtcProject {
    /// The project at `root`, from what the root holds: whether `gradlew`
    /// exists, the text of `build.gradle` if it could be read, the TeamCode
    /// directory chosen, whether Kotlin sources exist, and whether
    /// `local.properties` exists.
    pub fn from_root(
        root: &str,
        has_gradlew: bool,
        build_gradle_text: Option<&str>,
        team_code_dir: String,
        has_kotlin: bool,
        has_local_properties: bool,
    ) -> (r: Result<FtcProject, GradleError>)
        ensures
            !has_gradlew ==> (r matches Err(e) && e matches GradleError::GradlewNotFound { path } && path@ == root@),
            has_gradlew ==> (r matches Ok(p) && {
                &&& p.root@ == root@
                &&& p.build_gradle@ == path_join(root@, "build.gradle"@)
                &&& p.gradlew@ == path_join(root@, "gradlew"@)
                &&& p.team_code_dir == team_code_dir
                &&& p.has_kotlin == has_kotlin
                &&& (has_local_properties ==> (p.local_properties matches Some(l) && l@ == path_join(root@, "local.properties"@)))
                &&& (!has_local_properties ==> p.local_properties is None)
                &&& (build_gradle_text is None ==> p.sdk_version is None)
                &&& (build_gradle_text matches Some(t) ==> (regex_valid(sdk_version_pattern())
                    ==> crate::types::opt_string_view(p.sdk_version) == sdk_version_spec(t@)))
            }),
    {
        if !has_gradlew {
            return Err(GradleError::GradlewNotFound { path: owned(root) });
        }
        let build_gradle = join_path(root, "build.gradle");
        let gradlew = join_path(root, "gradlew");
        let sdk_version = match build_gradle_text {
            Some(t) => parse_sdk_version(t),
            None => None,
        };
        let local_properties = if has_local_properties {
            Some(join_path(root, "local.properties"))
        } else {
            None
        };
        Ok(FtcProject {
            root: owned(root),
            team_code_dir,
            build_gradle,
            local_properties,
            sdk_version,
            gradlew,
            has_kotlin,
        })
    }

    /// Which directory the project search settles on. `qualifies[k]` tells
    /// whether the directory `k` levels above `start` (the start itself at 0)
    /// looks like a project root, for as many levels as exist. The search
    /// looks at the first `MAX_PARENT_LEVELS` of them and takes the first that
    /// qualifies; when none does, `start` is not in a project.
    pub fn detect_level(start: &str, qualifies: &Vec<bool>) -> (r: Result<usize, GradleError>)
        ensures
            r matches Ok(k) ==> {
                &&& k < MAX_PARENT_LEVELS
                &&& k < qualifies@.len()
                &&& qualifies@[k as int]
                &&& forall|j: int| 0 <= j < k ==> !qualifies@[j]
            },
            r matches Err(e) ==> (e matches GradleError::NotFtcProject { path } && path@ == start@),
            r is Err <==> forall|j: int| 0 <= j < qualifies@.len() && j < MAX_PARENT_LEVELS ==> !qualifies@[j],
    {
        let mut k: usize = 0;
        while k < qualifies.len() && k < MAX_PARENT_LEVELS
            invariant
                k <= MAX_PARENT_LEVELS,
                k <= qualifies@.len(),
                forall|j: int| 0 <= j < k ==> !qualifies@[j],
            decreases qualifies@.len() - k,
        {
            if qualifies[k] {
                return Ok(k);
            }
            k += 1;
        }
        Err(GradleError::NotFtcProject { path: owned(start) })
    }

    pub fn gradlew_path(&self) -> (r: &str)
        ensures
            r@ == self.gradlew@,
    {
        self.gradlew.as_str()
    }
}

} // verus!
