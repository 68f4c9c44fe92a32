//! Repair suggestions for recognised Gradle build errors.
use vstd::prelude::*;
use crate::patterns::{Pattern, compile, is_match, regex_valid, regex_is_match};
use crate::text::owned;
use crate::types::BuildError;

verus! {

/// A concrete fix a repair suggestion proposes.
#[derive(Debug, Clone, PartialEq)]
pub enum RepairPatch {
    /// Replace `search` with `replace` in the file at `path`.
    EditFile { path: String, search: String, replace: String },
    /// Run Gradle with these arguments.
    GradleCommand { args: Vec<String> },
    /// Steps for the student to follow.
    Instructions(String),
    /// Several single-step patches applied in order.
    Composite(Vec<RepairStep>),
}

/// One step of a composite patch.
#[derive(Debug, Clone, PartialEq)]
pub enum RepairStep {
    /// Replace `search` with `replace` in the file at `path`.
    EditFile { path: String, search: String, replace: String },
    /// Run Gradle with these arguments.
    GradleCommand { args: Vec<String> },
    /// Steps for the student to follow.
    Instructions(String),
}

/// A suggested fix for a build error.
#[derive(Debug, Clone, PartialEq)]
pub struct RepairSuggestion {
    pub id: String,
    pub title: String,
    pub description: String,
    /// Confidence that the fix applies, in percent (0 to 100).
    pub confidence: u32,
    pub patch: RepairPatch,
    pub auto_applicable: bool,
}

/// The number of repair rules.
pub open spec fn rule_count() -> nat { 8 }

/// The identifier of rule `i`.
pub open spec fn rule_id(i: nat) -> Seq<char> {
    if i == 0 { "could-not-resolve-sdk"@ }
    else if i == 1 { "java-source-compat"@ }
    else if i == 2 { "java-home-not-set"@ }
    else if i == 3 { "gradle-wrapper-missing"@ }
    else if i == 4 { "sdk-version-deprecated"@ }
    else if i == 5 { "duplicate-class"@ }
    else if i == 6 { "compile-error-generic"@ }
    else { "annotation-processor"@ }
}

/// The pattern that recognises the error rule `i` handles.
pub open spec fn rule_pattern(i: nat) -> Seq<char> {
    if i == 0 { "Could not resolve com\\.qualcomm\\.robotcore:ftc-sdk:([0-9.]+)"@ }
    else if i == 1 { "Unsupported class file major version (\\d+)"@ }
    else if i == 2 { "(?i)JAVA_HOME not found|No JDK found"@ }
    else if i == 3 { "(?i)gradlew.*not found|wrapper.*missing"@ }
    else if i == 4 { "ftc-sdk:([0-9]+\\.[0-9]+)"@ }
    else if i == 5 { "Duplicate class ([\\w.]+)"@ }
    else if i == 6 { "error: cannot find symbol"@ }
    else { "(?i)annotation.*processor.*error|APT error"@ }
}

/// The confidence of rule `i`, in percent.
pub open spec fn rule_confidence(i: nat) -> u32 {
    if i == 0 { 90 }
    else if i == 1 { 85 }
    else if i == 2 { 95 }
    else if i == 3 { 90 }
    else if i == 4 { 60 }
    else if i == 5 { 75 }
    else if i == 6 { 50 }
    else { 60 }
}

/// Whether the fix of rule `i` may be applied without asking.
pub open spec fn rule_auto(i: nat) -> bool {
    i == 0 || i == 7
}

/// Whether the patch of rule `i` is a Gradle command (the others are instructions).
pub open spec fn rule_patch_is_command(i: nat) -> bool {
    i == 0 || i == 7
}

/// The title of rule `i`'s suggestion.
pub open spec fn rule_title(i: nat) -> Seq<char> {
    if i == 0 { "FTC SDK version not found"@ }
    else if i == 1 { "Java compatibility mismatch"@ }
    else if i == 2 { "JAVA_HOME not configured"@ }
    else if i == 3 { "Gradle wrapper not found"@ }
    else if i == 4 { "FTC SDK may be outdated"@ }
    else if i == 5 { "Duplicate class in classpath"@ }
    else if i == 6 { "Missing symbol \u{2014} check imports"@ }
    else { "Annotation processor error"@ }
}

/// The description of rule `i`'s suggestion.
pub open spec fn rule_description(i: nat) -> Seq<char> {
    if i == 0 { "The specified FTC SDK version could not be downloaded. Try pinning to a known-good version."@ }
    else if i == 1 { "Your Java version is too new for the configured source/target compatibility. Add the following to your module build.gradle:\n\nandroid {\n    compileOptions {\n        sourceCompatibility JavaVersion.VERSION_11\n        targetCompatibility JavaVersion.VERSION_11\n    }\n}"@ }
    else if i == 2 { "Set the JAVA_HOME environment variable to your JDK installation directory."@ }
    else if i == 3 { "The gradlew wrapper script is missing from the project root."@ }
    else if i == 4 { "Consider updating to the latest FTC SDK version (currently 9.2)."@ }
    else if i == 5 { "A class appears twice in your dependency tree. Check for conflicting library versions."@ }
    else if i == 6 { "A class or method cannot be found. Ensure you have the correct import and the FTC SDK is on the classpath."@ }
    else { "An annotation processor failed during compilation."@ }
}

/// The steps rule `i` gives, when its patch is instructions.
pub open spec fn rule_instructions(i: nat) -> Seq<char> {
    if i == 0 { seq![] }
    else if i == 1 { "In your module build.gradle add:\n\nandroid {\n    compileOptions {\n        sourceCompatibility JavaVersion.VERSION_11\n        targetCompatibility JavaVersion.VERSION_11\n    }\n}"@ }
    else if i == 2 { "Set JAVA_HOME to your JDK directory:\n\u{2022} Linux/macOS: export JAVA_HOME=/path/to/jdk (add to ~/.bashrc or ~/.zshrc)\n\u{2022} Windows: set JAVA_HOME=C:\\Path\\To\\JDK in System Environment Variables\n\u{2022} Android Studio: use File \u{2192} Project Structure \u{2192} SDK Location \u{2192} JDK location"@ }
    else if i == 3 { "Run the following command in the project root to regenerate the wrapper:\n\n    gradle wrapper --gradle-version 8.0\n\nIf you do not have Gradle installed, download it from https://gradle.org/install/"@ }
    else if i == 4 { "Update your build.gradle dependency to the latest SDK:\n\n    implementation 'com.qualcomm.robotcore:ftc-sdk:9.2'\n\nThen run Gradle Sync."@ }
    else if i == 5 { "Add to the root build.gradle `allprojects` block:\n\n    configurations.all {\n        resolutionStrategy.preferProjectModules()\n    }\n\nAlternatively, exclude the conflicting module from one of the dependencies."@ }
    else if i == 6 { "1. Check that you have the correct import statement at the top of the file.\n2. Verify that the FTC SDK dependency is present in your module build.gradle.\n3. Run 'Build \u{2192} Clean Project' then rebuild."@ }
    else { seq![] }
}

/// The Gradle arguments rule `i` proposes, when its patch is a Gradle command.
pub open spec fn rule_args(i: nat) -> Seq<Seq<char>> {
    if i == 0 { seq!["--refresh-dependencies"@] }
    else if i == 1 { seq![] }
    else if i == 2 { seq![] }
    else if i == 3 { seq![] }
    else if i == 4 { seq![] }
    else if i == 5 { seq![] }
    else if i == 6 { seq![] }
    else { seq!["--rerun-tasks"@, "build"@] }
}

/// Whether `s` is the suggestion rule `i` makes.
pub open spec fn is_rule_suggestion(s: RepairSuggestion, i: nat) -> bool {
    &&& s.id@ == rule_id(i)
    &&& s.title@ == rule_title(i)
    &&& s.description@ == rule_description(i)
    &&& s.confidence == rule_confidence(i)
    &&& s.auto_applicable == rule_auto(i)
    &&& if rule_patch_is_command(i) {
        s.patch matches RepairPatch::GradleCommand { args } && args@.map_values(|a: String| a@) == rule_args(i)
    } else {
        s.patch matches RepairPatch::Instructions(t) && t@ == rule_instructions(i)
    }
}

/// `true` when rule `i` recognises an error message.
pub open spec fn rule_matches(i: nat, message: Seq<char>) -> bool {
    regex_is_match(rule_pattern(i), message)
}

/// Inserts rule `r` after every rule already listed whose confidence is at least its own.
pub open spec fn insert_by_confidence(s: Seq<nat>, r: nat) -> Seq<nat>
    decreases s.len(),
{
    if s.len() == 0 {
        seq![r]
    } else if rule_confidence(s.last()) < rule_confidence(r) {
        insert_by_confidence(s.drop_last(), r).push(s.last())
    } else {
        s.push(r)
    }
}

/// The rules suggested for the first `k` rule checks on `msgs` (checks go error by
/// error, and rule by rule within an error): each matching rule once, ordered by
/// confidence, highest first, ties in order of first match.
pub open spec fn suggested_rules(msgs: Seq<Seq<char>>, k: nat) -> Seq<nat>
    decreases k,
{
    if k == 0 {
        seq![]
    } else {
        let prev = suggested_rules(msgs, (k - 1) as nat);
        let e = ((k - 1) as int) / 8;
        let r = (((k - 1) as int) % 8) as nat;
        if e < msgs.len() && rule_matches(r, msgs[e as int]) && !prev.contains(r) {
            insert_by_confidence(prev, r)
        } else {
            prev
        }
    }
}

/// Confidence never increases along `s`.
pub open spec fn confidence_descending(s: Seq<nat>) -> bool {
    forall|i: int, j: int| 0 <= i < j < s.len() ==> rule_confidence(#[trigger] s[i]) >= rule_confidence(#[trigger] s[j])
}

proof fn lemma_insert_by_confidence(s: Seq<nat>, r: nat)
    requires
        confidence_descending(s),
    ensures
        confidence_descending(insert_by_confidence(s, r)),
        insert_by_confidence(s, r).len() == s.len() + 1,
        forall|x: nat| #[trigger] insert_by_confidence(s, r).contains(x) <==> (s.contains(x) || x == r),
        s.no_duplicates() && !s.contains(r) ==> insert_by_confidence(s, r).no_duplicates(),
    decreases s.len(),
{
    let t = insert_by_confidence(s, r);
    if s.len() == 0 {
        assert(t == seq![r]);
        assert forall|x: nat| t.contains(x) <==> (s.contains(x) || x == r) by {
            if t.contains(x) {
                assert(t[0] == x);
            }
            if x == r {
                assert(t[0] == r);
            }
        }
    } else if rule_confidence(s.last()) < rule_confidence(r) {
        let d = s.drop_last();
        let last = s.last();
        assert forall|i: int, j: int| 0 <= i < j < d.len() implies rule_confidence(#[trigger] d[i]) >= rule_confidence(#[trigger] d[j]) by {
            assert(d[i] == s[i] && d[j] == s[j]);
        }
        lemma_insert_by_confidence(d, r);
        let u = insert_by_confidence(d, r);
        assert(t == u.push(last));
        assert forall|x: nat| t.contains(x) <==> (s.contains(x) || x == r) by {
            if t.contains(x) {
                let k = choose|k: int| 0 <= k < t.len() && t[k] == x;
                if k < u.len() {
                    assert(u[k] == x);
                    assert(u.contains(x));
                    if d.contains(x) {
                        let m = choose|m: int| 0 <= m < d.len() && d[m] == x;
                        assert(s[m] == x);
                    }
                } else {
                    assert(s[s.len() - 1] == x);
                }
            }
            if s.contains(x) {
                let m = choose|m: int| 0 <= m < s.len() && s[m] == x;
                if m < d.len() {
                    assert(d[m] == x);
                    assert(d.contains(x));
                    assert(u.contains(x));
                    let k = choose|k: int| 0 <= k < u.len() && u[k] == x;
                    assert(t[k] == x);
                } else {
                    assert(t[t.len() - 1] == x);
                }
            }
            if x == r {
                assert(u.contains(r));
                let k = choose|k: int| 0 <= k < u.len() && u[k] == r;
                assert(t[k] == r);
            }
        }
        assert forall|i: int, j: int| 0 <= i < j < t.len() implies rule_confidence(#[trigger] t[i]) >= rule_confidence(#[trigger] t[j]) by {
            if j == t.len() - 1 {
                assert(t[j] == last);
                assert(t[i] == u[i]);
                assert(u.contains(u[i]));
                if u[i] != r {
                    assert(d.contains(u[i]));
                    let m = choose|m: int| 0 <= m < d.len() && d[m] == u[i];
                    assert(s[m] == u[i]);
                    assert(rule_confidence(s[m]) >= rule_confidence(s[s.len() - 1]));
                }
            } else {
                assert(t[i] == u[i] && t[j] == u[j]);
            }
        }
        if s.no_duplicates() && !s.contains(r) {
            assert forall|i: int, j: int| 0 <= i < j < d.len() implies d[i] != d[j] by {
                assert(d[i] == s[i] && d[j] == s[j]);
            }
            assert(!d.contains(r)) by {
                if d.contains(r) {
                    let m = choose|m: int| 0 <= m < d.len() && d[m] == r;
                    assert(s[m] == r);
                }
            }
            assert(!u.contains(last)) by {
                if u.contains(last) {
                    assert(d.contains(last) || last == r);
                    if d.contains(last) {
                        let m = choose|m: int| 0 <= m < d.len() && d[m] == last;
                        assert(s[m] == s[s.len() - 1]);
                    }
                    assert(s[s.len() - 1] == last);
                }
            }
            assert forall|i: int, j: int| 0 <= i < j < t.len() implies t[i] != t[j] by {
                if j == t.len() - 1 {
                    assert(u[i] == t[i]);
                    assert(u.contains(t[i]));
                } else {
                    assert(t[i] == u[i] && t[j] == u[j]);
                }
            }
        }
    } else {
        assert(t == s.push(r));
        assert forall|x: nat| t.contains(x) <==> (s.contains(x) || x == r) by {
            if t.contains(x) {
                let k = choose|k: int| 0 <= k < t.len() && t[k] == x;
                if k < s.len() {
                    assert(s[k] == x);
                }
            }
            if s.contains(x) {
                let m = choose|m: int| 0 <= m < s.len() && s[m] == x;
                assert(t[m] == x);
            }
            if x == r {
                assert(t[t.len() - 1] == r);
            }
        }
        assert forall|i: int, j: int| 0 <= i < j < t.len() implies rule_confidence(#[trigger] t[i]) >= rule_confidence(#[trigger] t[j]) by {
            if j == t.len() - 1 {
                assert(t[i] == s[i]);
                if i < s.len() - 1 {
                    assert(rule_confidence(s[i]) >= rule_confidence(s[s.len() - 1]));
                }
            } else {
                assert(t[i] == s[i] && t[j] == s[j]);
            }
        }
        if s.no_duplicates() && !s.contains(r) {
            assert forall|i: int, j: int| 0 <= i < j < t.len() implies t[i] != t[j] by {
                if j == t.len() - 1 {
                    assert(t[i] == s[i]);
                    assert(s.contains(s[i]));
                } else {
                    assert(t[i] == s[i] && t[j] == s[j]);
                }
            }
        }
    }
}

/// The suggested rules are distinct rules, highest confidence first.
pub proof fn lemma_suggestions_distinct_and_ordered(msgs: Seq<Seq<char>>, k: nat)
    ensures
        suggested_rules(msgs, k).no_duplicates(),
        confidence_descending(suggested_rules(msgs, k)),
        forall|i: int| 0 <= i < suggested_rules(msgs, k).len() ==> #[trigger] suggested_rules(msgs, k)[i] < rule_count(),
    decreases k,
{
    if k > 0 {
        let prev = suggested_rules(msgs, (k - 1) as nat);
        lemma_suggestions_distinct_and_ordered(msgs, (k - 1) as nat);
        let e = ((k - 1) as int) / 8;
        let r = (((k - 1) as int) % 8) as nat;
        if e < msgs.len() && rule_matches(r, msgs[e as int]) && !prev.contains(r) {
            lemma_insert_by_confidence(prev, r);
            let t = suggested_rules(msgs, k);
            assert forall|i: int| 0 <= i < t.len() implies #[trigger] t[i] < rule_count() by {
                assert(t.contains(t[i]));
                if t[i] != r {
                    assert(prev.contains(t[i]));
                    let m = choose|m: int| 0 <= m < prev.len() && prev[m] == t[i];
                    assert(prev[m] < rule_count());
                }
            }
        }
    }
}

/// Later rule checks keep every rule suggested by earlier ones.
proof fn lemma_suggested_mono(msgs: Seq<Seq<char>>, a: nat, b: nat, x: nat)
    requires
        a <= b,
        suggested_rules(msgs, a).contains(x),
    ensures
        suggested_rules(msgs, b).contains(x),
    decreases b - a,
{
    if a < b {
        lemma_suggested_mono(msgs, a, (b - 1) as nat, x);
        let prev = suggested_rules(msgs, (b - 1) as nat);
        lemma_suggestions_distinct_and_ordered(msgs, (b - 1) as nat);
        let e = ((b - 1) as int) / 8;
        let r = (((b - 1) as int) % 8) as nat;
        if e < msgs.len() && rule_matches(r, msgs[e as int]) && !prev.contains(r) {
            lemma_insert_by_confidence(prev, r);
        }
    }
}

/// A rule that recognises the message of any of the errors is among the rules
/// suggested for them.
pub proof fn lemma_matching_rule_is_suggested(msgs: Seq<Seq<char>>, e: int, r: nat)
    requires
        0 <= e < msgs.len(),
        r < rule_count(),
        rule_matches(r, msgs[e]),
    ensures
        suggested_rules(msgs, (msgs.len() * rule_count()) as nat).contains(r),
{
    let k = (e * 8 + r) as nat;
    assert(k / 8 == e && k % 8 == r && k + 1 <= msgs.len() * 8) by (nonlinear_arith)
        requires k == e * 8 + r, 0 <= e < msgs.len(), r < 8;
    let prev = suggested_rules(msgs, k);
    lemma_suggestions_distinct_and_ordered(msgs, k);
    if !prev.contains(r) {
        lemma_insert_by_confidence(prev, r);
    }
    assert(suggested_rules(msgs, k + 1).contains(r));
    lemma_suggested_mono(msgs, k + 1, (msgs.len() * 8) as nat, r);
}

/// Whether the suggestions for errors with messages `msgs` include one with id `id`.
pub open spec fn suggests(msgs: Seq<Seq<char>>, id: Seq<char>) -> bool {
    let rules = suggested_rules(msgs, (msgs.len() * rule_count()) as nat);
    exists|k: int| 0 <= k < rules.len() && rule_id(#[trigger] rules[k]) == id
}

proof fn lemma_suggests_rule(msgs: Seq<Seq<char>>, r: nat)
    requires
        suggested_rules(msgs, (msgs.len() * rule_count()) as nat).contains(r),
    ensures
        suggests(msgs, rule_id(r)),
{
    let rules = suggested_rules(msgs, (msgs.len() * rule_count()) as nat);
    let k = choose|k: int| 0 <= k < rules.len() && rules[k] == r;
    assert(rule_id(rules[k]) == rule_id(r));
}

/// What the repair rules are for: a build error whose message one of the
/// rules' recognisers matches gets that rule's fix among the suggestions. An
/// SDK that could not be resolved gets `could-not-resolve-sdk`; an unsupported
/// class file version, `java-source-compat`; a missing JDK,
/// `java-home-not-set`; a missing Gradle wrapper, `gradle-wrapper-missing`; an
/// SDK dependency, `sdk-version-deprecated`; a duplicate class,
/// `duplicate-class`; a missing symbol, `compile-error-generic`; an annotation
/// processor failure, `annotation-processor`.
pub proof fn lemma_recognised_errors_get_their_fix(msgs: Seq<Seq<char>>, e: int)
    requires
        0 <= e < msgs.len(),
    ensures
        regex_is_match("Could not resolve com\\.qualcomm\\.robotcore:ftc-sdk:([0-9.]+)"@, msgs[e]) ==> suggests(msgs, "could-not-resolve-sdk"@),
        regex_is_match("Unsupported class file major version (\\d+)"@, msgs[e]) ==> suggests(msgs, "java-source-compat"@),
        regex_is_match("(?i)JAVA_HOME not found|No JDK found"@, msgs[e]) ==> suggests(msgs, "java-home-not-set"@),
        regex_is_match("(?i)gradlew.*not found|wrapper.*missing"@, msgs[e]) ==> suggests(msgs, "gradle-wrapper-missing"@),
        regex_is_match("ftc-sdk:([0-9]+\\.[0-9]+)"@, msgs[e]) ==> suggests(msgs, "sdk-version-deprecated"@),
        regex_is_match("Duplicate class ([\\w.]+)"@, msgs[e]) ==> suggests(msgs, "duplicate-class"@),
        regex_is_match("error: cannot find symbol"@, msgs[e]) ==> suggests(msgs, "compile-error-generic"@),
        regex_is_match("(?i)annotation.*processor.*error|APT error"@, msgs[e]) ==> suggests(msgs, "annotation-processor"@),
{
    if rule_matches(0, msgs[e]) {
        lemma_matching_rule_is_suggested(msgs, e, 0);
        lemma_suggests_rule(msgs, 0);
    }
    if rule_matches(1, msgs[e]) {
        lemma_matching_rule_is_suggested(msgs, e, 1);
        lemma_suggests_rule(msgs, 1);
    }
    if rule_matches(2, msgs[e]) {
        lemma_matching_rule_is_suggested(msgs, e, 2);
        lemma_suggests_rule(msgs, 2);
    }
    if rule_matches(3, msgs[e]) {
        lemma_matching_rule_is_suggested(msgs, e, 3);
        lemma_suggests_rule(msgs, 3);
    }
    if rule_matches(4, msgs[e]) {
        lemma_matching_rule_is_suggested(msgs, e, 4);
        lemma_suggests_rule(msgs, 4);
    }
    if rule_matches(5, msgs[e]) {
        lemma_matching_rule_is_suggested(msgs, e, 5);
        lemma_suggests_rule(msgs, 5);
    }
    if rule_matches(6, msgs[e]) {
        lemma_matching_rule_is_suggested(msgs, e, 6);
        lemma_suggests_rule(msgs, 6);
    }
    if rule_matches(7, msgs[e]) {
        lemma_matching_rule_is_suggested(msgs, e, 7);
        lemma_suggests_rule(msgs, 7);
    }
}

struct CompiledRule {
    index: usize,
    pattern: Pattern,
}

impl CompiledRule {
    #[verifier::type_invariant]
    spec fn compiled_from_rule(self) -> bool {
        self.index < rule_count() && self.pattern@ == rule_pattern(self.index as nat)
    }
}

/// Matches build errors against the repair rules.
pub struct RepairEngine {
    rules: Vec<CompiledRule>,
}

impl RepairEngine {
    /// The rules are held in table order.
    #[verifier::type_invariant]
    spec fn rules_in_order(self) -> bool {
        &&& self.rules@.len() <= rule_count()
        &&& forall|i: int| 0 <= i < self.rules@.len() ==> (#[trigger] self.rules@[i]).index == i
    }
}

/// Whether every rule pattern is accepted by the `regex` crate.
pub open spec fn rule_patterns_valid() -> bool {
    forall|i: nat| i < rule_count() ==> regex_valid(#[trigger] rule_pattern(i))
}

fn compile_rule(index: usize) -> (r: Option<CompiledRule>)
    requires
        index < rule_count(),
    ensures
        r is Some <==> regex_valid(rule_pattern(index as nat)),
        r matches Some(c) ==> c.index == index,
{
    let p = if index == 0 { compile("Could not resolve com\\.qualcomm\\.robotcore:ftc-sdk:([0-9.]+)") }
        else if index == 1 { compile("Unsupported class file major version (\\d+)") }
        else if index == 2 { compile("(?i)JAVA_HOME not found|No JDK found") }
        else if index == 3 { compile("(?i)gradlew.*not found|wrapper.*missing") }
        else if index == 4 { compile("ftc-sdk:([0-9]+\\.[0-9]+)") }
        else if index == 5 { compile("Duplicate class ([\\w.]+)") }
        else if index == 6 { compile("error: cannot find symbol") }
        else { compile("(?i)annotation.*processor.*error|APT error") };
    match p {
        Some(pattern) => Some(CompiledRule { index, pattern }),
        None => None,
    }
}

/// The argument list `first`, then `second` if there is one.
fn gradle_args_of(first: String, second: Option<String>) -> (v: Vec<String>)
    ensures
        v@.map_values(|a: String| a@) == match second {
            Some(b) => seq![first@, b@],
            None => seq![first@],
        },
{
    let mut v: Vec<String> = Vec::new();
    v.push(first);
    match second {
        Some(b) => {
            v.push(b);
        },
        None => {},
    }
    assert(v@.map_values(|a: String| a@) =~= match second {
        Some(b) => seq![first@, b@],
        None => seq![first@],
    });
    v
}

/// The suggestion rule `index` makes.
fn make_suggestion(index: usize) -> (s: RepairSuggestion)
    requires
        index < rule_count(),
    ensures
        is_rule_suggestion(s, index as nat),
{
    if index == 0 {
        RepairSuggestion {
            id: owned("could-not-resolve-sdk"),
            title: owned("FTC SDK version not found"),
            description: owned("The specified FTC SDK version could not be downloaded. Try pinning to a known-good version."),
            confidence: 90,
            patch: RepairPatch::GradleCommand { args: gradle_args_of(owned("--refresh-dependencies"), None) },
            auto_applicable: true,
        }
    } else if index == 1 {
        RepairSuggestion {
            id: owned("java-source-compat"),
            title: owned("Java compatibility mismatch"),
            description: owned("Your Java version is too new for the configured source/target compatibility. Add the following to your module build.gradle:\n\nandroid {\n    compileOptions {\n        sourceCompatibility JavaVersion.VERSION_11\n        targetCompatibility JavaVersion.VERSION_11\n    }\n}"),
            confidence: 85,
            patch: RepairPatch::Instructions(owned("In your module build.gradle add:\n\nandroid {\n    compileOptions {\n        sourceCompatibility JavaVersion.VERSION_11\n        targetCompatibility JavaVersion.VERSION_11\n    }\n}")),
            auto_applicable: false,
        }
    } else if index == 2 {
        RepairSuggestion {
            id: owned("java-home-not-set"),
            title: owned("JAVA_HOME not configured"),
            description: owned("Set the JAVA_HOME environment variable to your JDK installation directory."),
            confidence: 95,
            patch: RepairPatch::Instructions(owned("Set JAVA_HOME to your JDK directory:\n\u{2022} Linux/macOS: export JAVA_HOME=/path/to/jdk (add to ~/.bashrc or ~/.zshrc)\n\u{2022} Windows: set JAVA_HOME=C:\\Path\\To\\JDK in System Environment Variables\n\u{2022} Android Studio: use File \u{2192} Project Structure \u{2192} SDK Location \u{2192} JDK location")),
            auto_applicable: false,
        }
    } else if index == 3 {
        RepairSuggestion {
            id: owned("gradle-wrapper-missing"),
            title: owned("Gradle wrapper not found"),
            description: owned("The gradlew wrapper script is missing from the project root."),
            confidence: 90,
            patch: RepairPatch::Instructions(owned("Run the following command in the project root to regenerate the wrapper:\n\n    gradle wrapper --gradle-version 8.0\n\nIf you do not have Gradle installed, download it from https://gradle.org/install/")),
            auto_applicable: false,
        }
    } else if index == 4 {
        RepairSuggestion {
            id: owned("sdk-version-deprecated"),
            title: owned("FTC SDK may be outdated"),
            description: owned("Consider updating to the latest FTC SDK version (currently 9.2)."),
            confidence: 60,
            patch: RepairPatch::Instructions(owned("Update your build.gradle dependency to the latest SDK:\n\n    implementation 'com.qualcomm.robotcore:ftc-sdk:9.2'\n\nThen run Gradle Sync.")),
            auto_applicable: false,
        }
    } else if index == 5 {
        RepairSuggestion {
            id: owned("duplicate-class"),
            title: owned("Duplicate class in classpath"),
            description: owned("A class appears twice in your dependency tree. Check for conflicting library versions."),
            confidence: 75,
            patch: RepairPatch::Instructions(owned("Add to the root build.gradle `allprojects` block:\n\n    configurations.all {\n        resolutionStrategy.preferProjectModules()\n    }\n\nAlternatively, exclude the conflicting module from one of the dependencies.")),
            auto_applicable: false,
        }
    } else if index == 6 {
        RepairSuggestion {
            id: owned("compile-error-generic"),
            title: owned("Missing symbol \u{2014} check imports"),
            description: owned("A class or method cannot be found. Ensure you have the correct import and the FTC SDK is on the classpath."),
            confidence: 50,
            patch: RepairPatch::Instructions(owned("1. Check that you have the correct import statement at the top of the file.\n2. Verify that the FTC SDK dependency is present in your module build.gradle.\n3. Run 'Build \u{2192} Clean Project' then rebuild.")),
            auto_applicable: false,
        }
    } else {
        RepairSuggestion {
            id: owned("annotation-processor"),
            title: owned("Annotation processor error"),
            description: owned("An annotation processor failed during compilation."),
            confidence: 60,
            patch: RepairPatch::GradleCommand { args: gradle_args_of(owned("--rerun-tasks"), Some(owned("build"))) },
            auto_applicable: true,
        }
    }
}

/// Inserts `r` into `v` at the place `insert_by_confidence` gives.
fn insert_rule(v: &mut Vec<usize>, r: usize)
    requires
        r < rule_count(),
        forall|i: int| 0 <= i < old(v)@.len() ==> #[trigger] old(v)@[i] < rule_count(),
    ensures
        final(v)@.map_values(|x: usize| x as nat) == insert_by_confidence(old(v)@.map_values(|x: usize| x as nat), r as nat),
        forall|i: int| 0 <= i < final(v)@.len() ==> #[trigger] final(v)@[i] < rule_count(),
    decreases old(v)@.len(),
{
    let ghost s = old(v)@.map_values(|x: usize| x as nat);
    if v.len() == 0 {
        v.push(r);
        assert(v@.map_values(|x: usize| x as nat) =~= seq![r as nat]);
        return;
    }
    let last = v[v.len() - 1];
    assert(s.last() == last as nat);
    if rule_confidence_exec(last) < rule_confidence_exec(r) {
        let l = v.pop().unwrap();
        assert(v@.map_values(|x: usize| x as nat) =~= s.drop_last());
        insert_rule(v, r);
        v.push(l);
        assert(v@.map_values(|x: usize| x as nat) =~= insert_by_confidence(s.drop_last(), r as nat).push(s.last()));
    } else {
        v.push(r);
        assert(v@.map_values(|x: usize| x as nat) =~= s.push(r as nat));
    }
}

fn rule_confidence_exec(i: usize) -> (c: u32)
    ensures
        c == rule_confidence(i as nat),
{
    if i == 0 { 90 } else if i == 1 { 85 } else if i == 2 { 95 } else if i == 3 { 90 }
    else if i == 4 { 60 } else if i == 5 { 75 } else if i == 6 { 50 } else { 60 }
}

impl RepairEngine {
    /// Whether every rule compiled (it does exactly when all rule patterns are valid).
    pub closed spec fn ready(&self) -> bool {
        self.rules@.len() == rule_count()
    }

    /// An engine holding every rule.
    pub fn new() -> (e: Self)
        ensures
            e.ready() <==> rule_patterns_valid(),
    {
        let mut rules: Vec<CompiledRule> = Vec::new();
        let mut i: usize = 0;
        while i < 8
            invariant
                i <= 8,
                rules@.len() == i,
                forall|j: int| 0 <= j < i ==> (#[trigger] rules@[j]).index == j,
                forall|j: nat| j < i ==> regex_valid(#[trigger] rule_pattern(j)),
            decreases 8 - i,
        {
            match compile_rule(i) {
                Some(r) => { rules.push(r); },
                None => {
                    let e = RepairEngine { rules };
                    assert(!regex_valid(rule_pattern(i as nat)));
                    return e;
                },
            }
            i += 1;
        }
        RepairEngine { rules }
    }

    /// The suggestions for a list of build errors: each rule that recognises some
    /// error's message, once, highest confidence first, ties in order of first match.
    /// An engine whose rules did not all compile suggests nothing.
    pub fn diagnose(&self, errors: &[BuildError]) -> (r: Vec<RepairSuggestion>)
        ensures
            !self.ready() ==> r@.len() == 0,
            self.ready() ==> {
                let rules = suggested_rules(errors@.map_values(|e: BuildError| e.message@),
                    (errors@.len() * rule_count()) as nat);
                &&& r@.len() == rules.len()
                &&& forall|k: int| 0 <= k < r@.len() ==> is_rule_suggestion(#[trigger] r@[k], rules[k])
            },
    {
        proof { use_type_invariant(self); }
        if self.rules.len() != 8 {
            return Vec::new();
        }
        let ghost msgs = errors@.map_values(|e: BuildError| e.message@);
        let mut chosen: Vec<usize> = Vec::new();
        let mut e: usize = 0;
        while e < errors.len()
            invariant
                self.rules@.len() == 8,
                forall|i: int| 0 <= i < self.rules@.len() ==> (#[trigger] self.rules@[i]).index == i,
                msgs == errors@.map_values(|e: BuildError| e.message@),
                e <= errors@.len(),
                chosen@.map_values(|x: usize| x as nat) == suggested_rules(msgs, (e * 8) as nat),
                forall|i: int| 0 <= i < chosen@.len() ==> #[trigger] chosen@[i] < rule_count(),
            decreases errors@.len() - e,
        {
            let mut r: usize = 0;
            while r < 8
                invariant
                    self.rules@.len() == 8,
                    forall|i: int| 0 <= i < self.rules@.len() ==> (#[trigger] self.rules@[i]).index == i,
                    msgs == errors@.map_values(|e: BuildError| e.message@),
                    e < errors@.len(),
                    r <= 8,
                    chosen@.map_values(|x: usize| x as nat) == suggested_rules(msgs, (e * 8 + r) as nat),
                    forall|i: int| 0 <= i < chosen@.len() ==> #[trigger] chosen@[i] < rule_count(),
                decreases 8 - r,
            {
                let rule = &self.rules[r];
                proof { use_type_invariant(rule); }
                let ghost k = (e * 8 + r + 1) as nat;
                assert((k - 1) / 8 == e && (k - 1) % 8 == r) by (nonlinear_arith)
                    requires k == e * 8 + r + 1, r < 8;
                let hit = is_match(&rule.pattern, errors[e].message.as_str());
                assert(rule.index == r);
                assert(msgs[e as int] == errors@[e as int].message@);
                let mut seen = false;
                let mut j: usize = 0;
                while j < chosen.len()
                    invariant
                        j <= chosen@.len(),
                        seen == exists|w: int| 0 <= w < j && chosen@[w] == rule.index,
                    decreases chosen@.len() - j,
                {
                    if chosen[j] == rule.index {
                        seen = true;
                    }
                    j += 1;
                }
                proof {
                    let cs = chosen@.map_values(|x: usize| x as nat);
                    assert(seen == cs.contains(rule.index as nat)) by {
                        if seen {
                            let w = choose|w: int| 0 <= w < chosen@.len() && chosen@[w] == rule.index;
                            assert(cs[w] == rule.index as nat);
                        }
                        if cs.contains(rule.index as nat) {
                            let w = choose|w: int| 0 <= w < cs.len() && cs[w] == rule.index as nat;
                            assert(chosen@[w] == rule.index);
                        }
                    }
                }
                if hit && !seen {
                    insert_rule(&mut chosen, rule.index);
                }
                r += 1;
            }
            e += 1;
        }
        let mut out: Vec<RepairSuggestion> = Vec::new();
        let mut k: usize = 0;
        while k < chosen.len()
            invariant
                k <= chosen@.len(),
                out@.len() == k,
                forall|i: int| 0 <= i < chosen@.len() ==> #[trigger] chosen@[i] < rule_count(),
                forall|i: int| 0 <= i < k ==> is_rule_suggestion(#[trigger] out@[i], chosen@[i] as nat),
            decreases chosen@.len() - k,
        {
            out.push(make_suggestion(chosen[k]));
            k += 1;
        }
        out
    }
}

} // verus!
