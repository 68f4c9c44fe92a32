//! OpMode discovery: extracts `@TeleOp`/`@Autonomous` metadata from FTC sources.
use vstd::prelude::*;
use crate::build_parser::group;
use crate::hardware::group_text;
use crate::patterns::{
    captures, captures_all, compile, find, groups_view, is_match, regex_captures, regex_captures_all,
    regex_find, regex_is_match, regex_valid, Pattern,
};
use crate::rope_text::{byte_to_char_spec, lemma_byte_to_char_bound, utf8_len, lemma_encode_utf8_len};
use crate::source_scan::{char_index_of_byte, line_of_offset, line_of_offset_spec};
use crate::text::{chars_of, owned, string_from_range};

verus! {

// ── Patterns ──────────────────────────────────────────────────────────────────

pub open spec fn teleop_pattern() -> Seq<char> {
    "@TeleOp\\s*\\(\\s*name\\s*=\\s*\"([^\"]+)\"(?:\\s*,\\s*group\\s*=\\s*\"([^\"]+)\")?\\s*\\)"@
}

pub open spec fn autonomous_pattern() -> Seq<char> {
    "@Autonomous\\s*\\(\\s*name\\s*=\\s*\"([^\"]+)\"(?:\\s*,\\s*group\\s*=\\s*\"([^\"]+)\")?\\s*\\)"@
}

pub open spec fn class_pattern() -> Seq<char> {
    "\\bclass\\s+(\\w+)\\s+extends\\s+\\w*(?:Linear)?OpMode\\b"@
}

pub open spec fn disabled_pattern() -> Seq<char> {
    "@Disabled"@
}

pub open spec fn package_pattern() -> Seq<char> {
    "^\\s*package\\s+([\\w.]+)"@
}

/// Whether every pattern of the scanner is accepted by the `regex` crate.
pub open spec fn opmode_patterns_valid() -> bool {
    &&& regex_valid(teleop_pattern())
    &&& regex_valid(autonomous_pattern())
    &&& regex_valid(class_pattern())
    &&& regex_valid(disabled_pattern())
    &&& regex_valid(package_pattern())
}

// ── Types ─────────────────────────────────────────────────────────────────────

/// Whether an OpMode is driver-controlled or autonomous.
#[derive(Debug, Clone, Copy, PartialEq, Eq, Structural)]
pub enum OpModeKind {
    TeleOp,
    Autonomous,
}

/// Information about a single discovered OpMode.
#[derive(Debug, Clone)]
pub struct OpModeInfo {
    /// Java/Kotlin class name (e.g. `"MyTeleOp"`).
    pub class_name: String,
    /// Name shown in the robot controller driver station.
    pub display_name: String,
    pub kind: OpModeKind,
    /// Optional group tag from the annotation.
    pub group: Option<String>,
    /// `true` if `@Disabled` is present.
    pub is_disabled: bool,
    /// Path to the source file.
    pub file: String,
    /// 1-based line number of the annotation.
    pub line: u32,
    /// Java package from `package foo.bar;` declaration.
    pub package: Option<String>,
}

/// The mathematical value of an [`OpModeInfo`].
pub struct OpModeView {
    pub class_name: Seq<char>,
    pub display_name: Seq<char>,
    pub kind: OpModeKind,
    pub group: Option<Seq<char>>,
    pub is_disabled: bool,
    pub file: Seq<char>,
    pub line: u32,
    pub package: Option<Seq<char>>,
}

impl View for OpModeInfo {
    type V = OpModeView;

    open spec fn view(&self) -> OpModeView {
        OpModeView {
            class_name: self.class_name@,
            display_name: self.display_name@,
            kind: self.kind,
            group: crate::types::opt_string_view(self.group),
            is_disabled: self.is_disabled,
            file: self.file@,
            line: self.line,
            package: crate::types::opt_string_view(self.package),
        }
    }
}

pub open spec fn opmodes_view(v: Seq<OpModeInfo>) -> Seq<OpModeView> {
    v.map_values(|o: OpModeInfo| o@)
}

// ── Annotations ───────────────────────────────────────────────────────────────

/// An OpMode annotation: its kind, display name, group and byte offset.
pub struct Annotation {
    pub kind: OpModeKind,
    pub display_name: Seq<char>,
    pub group: Option<Seq<char>>,
    pub offset: nat,
}

/// The annotations one pattern finds.
pub open spec fn annotations_by(pattern: Seq<char>, kind: OpModeKind, content: Seq<char>) -> Seq<
    Annotation,
> {
    regex_captures_all(pattern, content).map_values(
        |c: (nat, Seq<Option<Seq<char>>>)|
            Annotation {
                kind,
                display_name: group_text(c.1, 1),
                group: group(c.1, 2),
                offset: c.0,
            },
    )
}

/// `a` inserted after every annotation whose offset is not greater.
pub open spec fn insert_by_offset(s: Seq<Annotation>, a: Annotation) -> Seq<Annotation>
    decreases s.len(),
{
    if s.len() == 0 {
        seq![a]
    } else if a.offset < s[0].offset {
        seq![a] + s
    } else {
        seq![s[0]] + insert_by_offset(s.drop_first(), a)
    }
}

/// The annotations in offset order, those at the same offset in their order.
pub open spec fn sort_by_offset(s: Seq<Annotation>) -> Seq<Annotation>
    decreases s.len(),
{
    if s.len() == 0 {
        Seq::<Annotation>::empty()
    } else {
        insert_by_offset(sort_by_offset(s.drop_last()), s.last())
    }
}

/// All `@TeleOp` and `@Autonomous` annotations, in file order.
pub open spec fn annotations_of(content: Seq<char>) -> Seq<Annotation> {
    sort_by_offset(
        annotations_by(teleop_pattern(), OpModeKind::TeleOp, content) + annotations_by(
            autonomous_pattern(),
            OpModeKind::Autonomous,
            content,
        ),
    )
}

// ── Per-annotation rules ──────────────────────────────────────────────────────

/// The index of the last `'\n'` before char index `end`, or -1.
pub open spec fn last_newline(s: Seq<char>, end: int) -> int
    decreases end,
{
    if end <= 0 {
        -1
    } else if s[end - 1] == '\n' {
        end - 1
    } else {
        last_newline(s, end - 1)
    }
}

/// What `Path::file_stem` gives for a path given as a string.
pub uninterp spec fn path_file_stem(path: Seq<char>) -> Option<Seq<char>>;

/// `std::path::Path::file_stem` of a path given as a string; the result is
/// `path_file_stem` of it.
#[verifier::external_body]
fn file_stem_of(path: &str) -> (r: Option<String>)
    ensures
        match r {
            Some(s) => path_file_stem(path@) == Some(s@),
            None => path_file_stem(path@) is None,
        },
{
    std::path::Path::new(path).file_stem().and_then(|s| s.to_str()).map(|s| s.to_string())
}

/// Whether the annotation at char index `at` is disabled: `@Disabled` appears
/// between it and the next OpMode class declaration, or in the two lines that
/// end where it starts.
pub open spec fn disabled_at(s: Seq<char>, at: int) -> bool {
    let after = s.skip(at);
    let class_pos = match regex_find(class_pattern(), after) {
        Some(m) => m.0 as int,
        None => utf8_len(after) as int,
    };
    let between = after.take(byte_to_char_spec(after, class_pos) as int);
    let rs = last_newline(s, at) + 1;
    let rs2 = if rs > 0 {
        last_newline(s, rs - 1) + 1
    } else {
        0
    };
    regex_is_match(disabled_pattern(), between) || regex_is_match(
        disabled_pattern(),
        s.subrange(rs2, at),
    )
}

/// The class named by the first OpMode class declaration from char index `at`
/// on, else the file's stem, else `"Unknown"`.
pub open spec fn class_name_at(path: Seq<char>, s: Seq<char>, at: int) -> Seq<char> {
    match regex_captures(class_pattern(), s.skip(at)) {
        Some((_, g)) if group(g, 1) is Some => group(g, 1)->0,
        _ => match path_file_stem(path) {
            Some(stem) => stem,
            None => "Unknown"@,
        },
    }
}

/// The `package` declaration of the source.
pub open spec fn package_of(s: Seq<char>) -> Option<Seq<char>> {
    match regex_captures(package_pattern(), s) {
        Some((_, g)) => group(g, 1),
        None => None,
    }
}

/// The OpMode an annotation declares.
pub open spec fn opmode_of(path: Seq<char>, s: Seq<char>, a: Annotation) -> OpModeView {
    let at = byte_to_char_spec(s, a.offset as int) as int;
    OpModeView {
        class_name: class_name_at(path, s, at),
        display_name: a.display_name,
        kind: a.kind,
        group: a.group,
        is_disabled: disabled_at(s, at),
        file: path,
        line: line_of_offset_spec(s, a.offset as int),
        package: package_of(s),
    }
}

/// The OpModes a source file declares, one per annotation, in file order.
pub open spec fn scan_source_spec(path: Seq<char>, s: Seq<char>) -> Seq<OpModeView> {
    annotations_of(s).map_values(|a: Annotation| opmode_of(path, s, a))
}

/// The text from char index `at` up to where the first OpMode class
/// declaration (`class X extends ...OpMode`) after it begins, or to the end of
/// `s` when none follows.
pub open spec fn text_up_to_class(s: Seq<char>, at: int) -> Seq<char> {
    let after = s.skip(at);
    match regex_find("\\bclass\\s+(\\w+)\\s+extends\\s+\\w*(?:Linear)?OpMode\\b"@, after) {
        Some(m) => after.take(byte_to_char_spec(after, m.0 as int) as int),
        None => after,
    }
}

/// The text of the line holding char index `at` up to `at`, together with the
/// whole line before it.
pub open spec fn two_lines_before(s: Seq<char>, at: int) -> Seq<char> {
    let rs = last_newline(s, at) + 1;
    let rs2 = if rs > 0 { last_newline(s, rs - 1) + 1 } else { 0 };
    s.subrange(rs2, at)
}

/// An OpMode is reported disabled exactly when `@Disabled` appears between
/// its annotation and the class declaration that follows it, or in the two
/// lines that end where the annotation starts.
pub proof fn lemma_disabled_opmodes(path: Seq<char>, s: Seq<char>, k: int)
    requires
        0 <= k < scan_source_spec(path, s).len(),
    ensures
        ({
            let at = byte_to_char_spec(s, annotations_of(s)[k].offset as int) as int;
            scan_source_spec(path, s)[k].is_disabled <==> (regex_is_match("@Disabled"@, text_up_to_class(s, at))
                || regex_is_match("@Disabled"@, two_lines_before(s, at)))
        }),
{
    let a = annotations_of(s)[k];
    let at = byte_to_char_spec(s, a.offset as int) as int;
    lemma_byte_to_char_bound(s, a.offset as int);
    let after = s.skip(at);
    if regex_find(class_pattern(), after) is None {
        crate::rope_text::lemma_byte_to_char_of_boundary(after, after.len() as int);
        assert(after.take(after.len() as int) =~= after);
    }
    assert(scan_source_spec(path, s)[k] == opmode_of(path, s, a));
}

// ── Exec ──────────────────────────────────────────────────────────────────────

struct Ann {
    kind: OpModeKind,
    display_name: String,
    group: Option<String>,
    offset: usize,
}

spec fn ann_view(a: Ann) -> Annotation {
    Annotation {
        kind: a.kind,
        display_name: a.display_name@,
        group: crate::types::opt_string_view(a.group),
        offset: a.offset as nat,
    }
}

spec fn anns_view(v: Seq<Ann>) -> Seq<Annotation> {
    v.map_values(|a: Ann| ann_view(a))
}

fn group_opt(g: &Vec<Option<String>>, i: usize) -> (r: Option<String>)
    ensures
        crate::types::opt_string_view(r) == group(groups_view(g@), i as int),
{
    if i < g.len() {
        match &g[i] {
            Some(t) => Some(t.clone()),
            None => None,
        }
    } else {
        None
    }
}

fn group_str(g: &Vec<Option<String>>, i: usize) -> (r: String)
    ensures
        r@ == group_text(groups_view(g@), i as int),
{
    if i < g.len() {
        match &g[i] {
            Some(t) => t.clone(),
            None => String::new(),
        }
    } else {
        String::new()
    }
}

fn collect_annotations_by(p: &Pattern, kind: OpModeKind, content: &str, out: &mut Vec<Ann>)
    ensures
        anns_view(final(out)@) == anns_view(old(out)@) + annotations_by(p@, kind, content@),
{
    let caps = captures_all(p, content);
    let ghost want = annotations_by(p@, kind, content@);
    let ghost start = anns_view(old(out)@);
    let mut i: usize = 0;
    while i < caps.len()
        invariant
            i <= caps@.len(),
            regex_captures_all(p@, content@) == caps@.map_values(
                |c: (usize, Vec<Option<String>>)| (c.0 as nat, groups_view(c.1@)),
            ),
            want == annotations_by(p@, kind, content@),
            anns_view(out@) == start + want.take(i as int),
        decreases caps@.len() - i,
    {
        let a = Ann {
            kind,
            display_name: group_str(&caps[i].1, 1),
            group: group_opt(&caps[i].1, 2),
            offset: caps[i].0,
        };
        let ghost before = out@;
        out.push(a);
        proof {
            assert(want[i as int] == ann_view(a));
            assert(anns_view(out@) =~= anns_view(before).push(ann_view(a)));
            assert(want.take(i + 1) =~= want.take(i as int).push(want[i as int]));
        }
        i += 1;
    }
    assert(want.take(i as int) =~= want);
}

proof fn lemma_insert_offset_at(s: Seq<Annotation>, a: Annotation, j: int)
    requires
        0 <= j <= s.len(),
        forall|k: int| 0 <= k < j ==> !(a.offset < #[trigger] s[k].offset),
        j < s.len() ==> a.offset < s[j].offset,
    ensures
        insert_by_offset(s, a) == s.take(j) + seq![a] + s.skip(j),
    decreases s.len(),
{
    if s.len() == 0 {
        assert(s.take(j) + seq![a] + s.skip(j) =~= seq![a]);
    } else if j == 0 {
        assert(s.take(0) + seq![a] + s.skip(0) =~= seq![a] + s);
    } else {
        let t = s.drop_first();
        assert forall|k: int| 0 <= k < j - 1 implies !(a.offset < #[trigger] t[k].offset) by {
            assert(t[k] == s[k + 1]);
        }
        lemma_insert_offset_at(t, a, j - 1);
        assert(seq![s[0]] + (t.take(j - 1) + seq![a] + t.skip(j - 1)) =~= s.take(j) + seq![a]
            + s.skip(j));
    }
}

/// Stable sort of annotations by offset.
fn sort_annotations(anns: Vec<Ann>) -> (r: Vec<Ann>)
    ensures
        anns_view(r@) == sort_by_offset(anns_view(anns@)),
{
    let ghost all = anns_view(anns@);
    let mut rest = anns;
    let mut out: Vec<Ann> = Vec::new();
    let n = rest.len();
    let mut i: usize = 0;
    assert(all.skip(0) =~= all);
    while i < n
        invariant
            n == all.len(),
            i <= n,
            anns_view(rest@) == all.skip(i as int),
            anns_view(out@) == sort_by_offset(all.take(i as int)),
        decreases n - i,
    {
        let ghost rv = anns_view(rest@);
        assert(rv.len() == rest@.len());
        assert(rv[0] == ann_view(rest@[0]));
        let ghost old_rest = rest@;
        let a = rest.remove(0);
        proof {
            assert(rest@ == old_rest.remove(0));
            assert forall|k: int| 0 <= k < rest@.len() implies #[trigger] anns_view(rest@)[k]
                == all.skip(i + 1)[k] by {
                assert(rest@[k] == old_rest[k + 1]);
                assert(rv[k + 1] == ann_view(old_rest[k + 1]));
            }
            assert(anns_view(rest@) =~= all.skip(i + 1));
        }
        let ghost ov = anns_view(out@);
        let mut j: usize = 0;
        while j < out.len()
            invariant
                j <= out@.len(),
                ov == anns_view(out@),
                forall|k: int| 0 <= k < j ==> !(a.offset < #[trigger] ov[k].offset),
            ensures
                j <= out@.len(),
                forall|k: int| 0 <= k < j ==> !(a.offset < #[trigger] ov[k].offset),
                j < out@.len() ==> a.offset < ov[j as int].offset,
            decreases out@.len() - j,
        {
            if a.offset < out[j].offset {
                break;
            }
            j += 1;
        }
        proof {
            lemma_insert_offset_at(ov, ann_view(a), j as int);
            assert(all.take(i + 1).drop_last() =~= all.take(i as int));
        }
        out.insert(j, a);
        proof {
            assert(anns_view(out@) =~= ov.take(j as int) + seq![all[i as int]] + ov.skip(j as int));
        }
        i += 1;
    }
    assert(all.take(n as int) =~= all);
    out
}

/// The index of the last `'\n'` before char index `end`, plus one (0 if none).
fn line_start_before(v: &Vec<char>, end: usize) -> (r: usize)
    requires
        end <= v@.len(),
    ensures
        r == last_newline(v@, end as int) + 1,
        r <= end,
{
    let mut k = end;
    while k > 0
        invariant
            k <= end <= v@.len(),
            last_newline(v@, end as int) == last_newline(v@, k as int),
        decreases k,
    {
        if v[k - 1] == '\n' {
            return k;
        }
        k -= 1;
    }
    0
}

/// The compiled patterns of the scanner.
struct OpModePatterns {
    teleop: Pattern,
    autonomous: Pattern,
    class_decl: Pattern,
    disabled: Pattern,
    package: Pattern,
}

spec fn patterns_ok(p: OpModePatterns) -> bool {
    &&& p.teleop@ == teleop_pattern()
    &&& p.autonomous@ == autonomous_pattern()
    &&& p.class_decl@ == class_pattern()
    &&& p.disabled@ == disabled_pattern()
    &&& p.package@ == package_pattern()
}

fn compile_patterns() -> (r: Option<OpModePatterns>)
    ensures
        r is Some <==> opmode_patterns_valid(),
        r matches Some(p) ==> patterns_ok(p),
{
    let a = compile("@TeleOp\\s*\\(\\s*name\\s*=\\s*\"([^\"]+)\"(?:\\s*,\\s*group\\s*=\\s*\"([^\"]+)\")?\\s*\\)");
    let b = compile("@Autonomous\\s*\\(\\s*name\\s*=\\s*\"([^\"]+)\"(?:\\s*,\\s*group\\s*=\\s*\"([^\"]+)\")?\\s*\\)");
    let c = compile("\\bclass\\s+(\\w+)\\s+extends\\s+\\w*(?:Linear)?OpMode\\b");
    let d = compile("@Disabled");
    let e = compile("^\\s*package\\s+([\\w.]+)");
    match (a, b, c, d, e) {
        (Some(a), Some(b), Some(c), Some(d), Some(e)) => Some(
            OpModePatterns { teleop: a, autonomous: b, class_decl: c, disabled: d, package: e },
        ),
        _ => None,
    }
}

/// The OpMode one annotation declares.
fn opmode_for(pats: &OpModePatterns, path: &str, chars: &Vec<char>, package: &Option<String>, a: Ann) -> (r: OpModeInfo)
    requires
        patterns_ok(*pats),
        crate::types::opt_string_view(*package) == package_of(chars@),
    ensures
        r@ == opmode_of(path@, chars@, ann_view(a)),
{
    let at = char_index_of_byte(chars, a.offset);
    proof {
        lemma_byte_to_char_bound(chars@, a.offset as int);
    }
    let line = line_of_offset(chars, a.offset);
    let after = string_from_range(chars, at, chars.len());
    assert(after@ =~= chars@.skip(at as int));
    let after_chars = chars_of(after.as_str());
    // `@Disabled` between this annotation and the class keyword.
    let class_char = match find(&pats.class_decl, after.as_str()) {
        Some((start, _)) => {
            proof {
                lemma_byte_to_char_bound(after_chars@, start as int);
            }
            char_index_of_byte(&after_chars, start)
        },
        None => {
            proof {
                assert(after_chars@.take(after_chars@.len() as int) =~= after_chars@);
                crate::rope_text::lemma_byte_to_char_of_boundary(after_chars@, after_chars@.len() as int);
            }
            after_chars.len()
        },
    };
    let between = string_from_range(&after_chars, 0, class_char);
    assert(between@ =~= after@.take(class_char as int));
    // ... or in the two lines just before the annotation.
    let rs = line_start_before(chars, at);
    let rs2 = if rs > 0 {
        line_start_before(chars, rs - 1)
    } else {
        0
    };
    let recent = string_from_range(chars, rs2, at);
    let is_disabled = is_match(&pats.disabled, between.as_str()) || is_match(&pats.disabled, recent.as_str());
    // The class name from the declaration after the annotation, else the file stem.
    let class_name = match captures(&pats.class_decl, after.as_str()) {
        Some((_, g)) => match group_opt(&g, 1) {
            Some(n) => n,
            None => match file_stem_of(path) {
                Some(stem) => stem,
                None => owned("Unknown"),
            },
        },
        None => match file_stem_of(path) {
            Some(stem) => stem,
            None => owned("Unknown"),
        },
    };
    let package = match package {
        Some(p) => Some(p.clone()),
        None => None,
    };
    proof {
        let sa = chars@.skip(at as int);
        assert(after@ == sa);
        let cp = match regex_find(class_pattern(), sa) {
            Some(m) => m.0 as int,
            None => utf8_len(sa) as int,
        };
        assert(class_char == byte_to_char_spec(sa, cp));
        assert(between@ == sa.take(byte_to_char_spec(sa, cp) as int));
        assert(rs == last_newline(chars@, at as int) + 1);
        assert(recent@ == chars@.subrange(rs2 as int, at as int));
    }
    assert(is_disabled == disabled_at(chars@, at as int));
    assert(class_name@ == class_name_at(path@, chars@, at as int));
    assert(crate::types::opt_string_view(package) == package_of(chars@));
    OpModeInfo {
        class_name,
        display_name: a.display_name,
        kind: a.kind,
        group: a.group,
        is_disabled,
        file: owned(path),
        line,
        package,
    }
}

pub struct OpModeScanner;

impl OpModeScanner {
    /// The OpModes declared in the source `content` of the file at `path`, one
    /// per annotation in file order (none when a pattern is invalid).
    pub fn scan_source(path: &str, content: &str) -> (r: Vec<OpModeInfo>)
        ensures
            opmode_patterns_valid() ==> opmodes_view(r@) == scan_source_spec(path@, content@),
            !opmode_patterns_valid() ==> r@.len() == 0,
    {
        let pats = match compile_patterns() {
            Some(p) => p,
            None => return Vec::new(),
        };
        let chars = chars_of(content);
        let package = match captures(&pats.package, content) {
            Some((_, g)) => group_opt(&g, 1),
            None => None,
        };
        // Collect annotations and sort them into file order.
        let mut anns: Vec<Ann> = Vec::new();
        collect_annotations_by(&pats.teleop, OpModeKind::TeleOp, content, &mut anns);
        collect_annotations_by(&pats.autonomous, OpModeKind::Autonomous, content, &mut anns);
        assert(anns_view(anns@) =~= annotations_by(teleop_pattern(), OpModeKind::TeleOp, content@)
            + annotations_by(autonomous_pattern(), OpModeKind::Autonomous, content@));
        let sorted = sort_annotations(anns);
        let ghost want = scan_source_spec(path@, content@);
        let ghost sv = anns_view(sorted@);
        let mut rest = sorted;
        let mut out: Vec<OpModeInfo> = Vec::new();
        let n = rest.len();
        let mut i: usize = 0;
        assert(sv.skip(0) =~= sv);
        while i < n
            invariant
                n == sv.len(),
                i <= n,
                sv == annotations_of(content@),
                want == sv.map_values(|a: Annotation| opmode_of(path@, content@, a)),
                chars@ == content@,
                patterns_ok(pats),
                crate::types::opt_string_view(package) == package_of(chars@),
                anns_view(rest@) == sv.skip(i as int),
                opmodes_view(out@) == want.take(i as int),
            decreases n - i,
        {
            let ghost rv = anns_view(rest@);
            assert(rv.len() == rest@.len());
            assert(rv[0] == ann_view(rest@[0]));
            let ghost old_rest = rest@;
            let a = rest.remove(0);
            proof {
                assert(rest@ == old_rest.remove(0));
                assert forall|k: int| 0 <= k < rest@.len() implies #[trigger] anns_view(rest@)[k]
                    == sv.skip(i + 1)[k] by {
                    assert(rest@[k] == old_rest[k + 1]);
                    assert(rv[k + 1] == ann_view(old_rest[k + 1]));
                }
                assert(anns_view(rest@) =~= sv.skip(i + 1));
                assert(ann_view(a) == sv[i as int]);
            }
            let info = opmode_for(&pats, path, &chars, &package, a);
            let ghost ov = opmodes_view(out@);
            out.push(info);
            proof {
                assert(opmodes_view(out@) =~= ov.push(info@));
                assert(want.take(i + 1) =~= want.take(i as int).push(want[i as int]));
            }
            i += 1;
        }
        assert(want.take(n as int) =~= want);
        out
    }

    /// Whether a file is scanned: Java and Kotlin sources.
    pub fn is_source_file(path: &str) -> (r: bool)
        ensures
            r == (crate::document::path_extension(path@) == Some("java"@)
                || crate::document::path_extension(path@) == Some("kt"@)),
    {
        crate::document::is_extension(path, "java") || crate::document::is_extension(path, "kt")
    }
}

} // verus!
