//! Git conflict markers: parsing conflicted files and resolving their hunks.
//!
//! A conflicted file holds blocks of the form
//! ```text
//! <<<<<<< HEAD
//! our code
//! =======
//! their code
//! >>>>>>> branch-name
//! ```
use vstd::prelude::*;
use crate::text::{chars_of, join_lines, lines_of, matches_at, owned, push_char, push_str, split_lines, starts_with, string_from_chars, trim, trim_range, vecs_view};

verus! {

/// One side of a conflict.
#[derive(Debug, Clone, PartialEq)]
pub struct ConflictSide {
    /// Label from the marker line (e.g. `"HEAD"` or a branch name).
    pub label: String,
    /// The side's lines, joined by newlines.
    pub content: String,
}

/// One conflict block.
#[derive(Debug, Clone, PartialEq)]
pub struct ConflictHunk {
    /// Zero-based index of this hunk within the file.
    pub index: usize,
    /// 1-based line number of the `<<<<<<<` marker.
    pub start_line: u32,
    /// 1-based line number of the `>>>>>>>` marker.
    pub end_line: u32,
    pub ours: ConflictSide,
    pub theirs: ConflictSide,
}

/// A conflicted file and its hunks.
#[derive(Debug, Clone, PartialEq)]
pub struct ConflictFile {
    /// Path of the file.
    pub path: String,
    pub hunks: Vec<ConflictHunk>,
}

/// How to resolve one hunk.
#[derive(Debug, Clone, PartialEq)]
pub enum ResolutionChoice {
    Ours,
    Theirs,
    Custom(String),
}

pub struct SideView {
    pub label: Seq<char>,
    pub content: Seq<char>,
}

pub struct HunkView {
    pub index: nat,
    pub start_line: u32,
    pub end_line: u32,
    pub ours: SideView,
    pub theirs: SideView,
}

impl View for ConflictHunk {
    type V = HunkView;

    open spec fn view(&self) -> HunkView {
        HunkView {
            index: self.index as nat,
            start_line: self.start_line,
            end_line: self.end_line,
            ours: SideView { label: self.ours.label@, content: self.ours.content@ },
            theirs: SideView { label: self.theirs.label@, content: self.theirs.content@ },
        }
    }
}

pub open spec fn hunks_view(h: Seq<ConflictHunk>) -> Seq<HunkView> {
    h.map_values(|x: ConflictHunk| x@)
}

/// Where the scanner is relative to a conflict block.
pub enum Phase {
    Outside,
    InOurs,
    InTheirs,
}

/// The scanner's state after some lines.
pub struct ScanState {
    pub phase: Phase,
    pub ours_label: Seq<char>,
    pub ours: Seq<Seq<char>>,
    pub theirs: Seq<Seq<char>>,
    pub start_line: u32,
    /// The line number of the open block's `=======` line, once read.
    pub sep_line: u32,
    pub hunks: Seq<HunkView>,
}

/// The label after a seven-character marker, or `default` when it is blank.
pub open spec fn marker_label(line: Seq<char>, default: Seq<char>) -> Seq<char> {
    let l = trim(line.skip(7));
    if l.len() == 0 { default } else { l }
}

/// The scanner's state after reading `line`, the `lineno`-th line.
pub open spec fn scan_step(st: ScanState, line: Seq<char>, lineno: u32) -> ScanState {
    match st.phase {
        Phase::Outside => {
            if starts_with(line, "<<<<<<<"@) {
                ScanState {
                    phase: Phase::InOurs,
                    ours_label: marker_label(line, "HEAD"@),
                    ours: seq![],
                    theirs: seq![],
                    start_line: lineno,
                    sep_line: st.sep_line,
                    hunks: st.hunks,
                }
            } else {
                st
            }
        },
        Phase::InOurs => {
            if starts_with(line, "======="@) {
                ScanState { phase: Phase::InTheirs, sep_line: lineno, ..st }
            } else {
                ScanState { ours: st.ours.push(line), ..st }
            }
        },
        Phase::InTheirs => {
            if starts_with(line, ">>>>>>>"@) {
                let h = HunkView {
                    index: st.hunks.len(),
                    start_line: st.start_line,
                    end_line: lineno,
                    ours: SideView { label: st.ours_label, content: join_lines(st.ours) },
                    theirs: SideView { label: marker_label(line, "theirs"@), content: join_lines(st.theirs) },
                };
                ScanState { phase: Phase::Outside, hunks: st.hunks.push(h), ..st }
            } else {
                ScanState { theirs: st.theirs.push(line), ..st }
            }
        },
    }
}

/// The state before any line is read.
pub open spec fn scan_start() -> ScanState {
    ScanState {
        phase: Phase::Outside,
        ours_label: seq![],
        ours: seq![],
        theirs: seq![],
        start_line: 0,
        sep_line: 0,
        hunks: seq![],
    }
}

/// The scanner's state after the first `k` lines (line numbers start at 1).
pub open spec fn scan(lines: Seq<Seq<char>>, k: nat) -> ScanState
    decreases k,
{
    if k == 0 {
        scan_start()
    } else {
        scan_step(scan(lines, (k - 1) as nat), lines[k - 1], k as u32)
    }
}

/// The conflict hunks of a text.
pub open spec fn conflict_hunks(text: Seq<char>) -> Seq<HunkView> {
    scan(lines_of(text), lines_of(text).len()).hunks
}

/// Scanning lines none of which opens a conflict stays outside any conflict
/// and finds nothing.
proof fn lemma_scan_without_openers(lines: Seq<Seq<char>>, k: nat)
    requires
        k <= lines.len(),
        forall|i: int| 0 <= i < lines.len() ==> !starts_with(#[trigger] lines[i], "<<<<<<<"@),
    ensures
        scan(lines, k).phase == Phase::Outside,
        scan(lines, k).hunks.len() == 0,
    decreases k,
{
    if k > 0 {
        lemma_scan_without_openers(lines, (k - 1) as nat);
        assert(!starts_with(lines[k - 1], "<<<<<<<"@));
    }
}

/// A text in which no line starts with `<<<<<<<` has no conflict hunks.
pub proof fn lemma_no_opener_no_hunks(text: Seq<char>)
    requires
        forall|i: int| 0 <= i < lines_of(text).len() ==> !starts_with(#[trigger] lines_of(text)[i], "<<<<<<<"@),
    ensures
        conflict_hunks(text).len() == 0,
{
    lemma_scan_without_openers(lines_of(text), lines_of(text).len());
}

/// What holds of the scanner after `k` lines: every hunk found so far is
/// well-formed, and an open block starts after the last hunk.
pub open spec fn scan_invariant(lines: Seq<Seq<char>>, k: nat, st: ScanState) -> bool {
    &&& forall|j: int| 0 <= j < st.hunks.len() ==> {
        let h = #[trigger] st.hunks[j];
        &&& h.index == j
        &&& 1 <= h.start_line < h.end_line <= k
        &&& starts_with(lines[h.start_line - 1], "<<<<<<<"@)
        &&& starts_with(lines[h.end_line - 1], ">>>>>>>"@)
    }
    &&& forall|j: int| 0 <= j < st.hunks.len() - 1 ==> #[trigger] st.hunks[j].end_line < st.hunks[j + 1].start_line
    &&& !(st.phase is Outside) ==> {
        &&& 1 <= st.start_line <= k
        &&& starts_with(lines[st.start_line - 1], "<<<<<<<"@)
        &&& st.hunks.len() > 0 ==> st.hunks.last().end_line < st.start_line
    }
}

proof fn lemma_scan_invariant(lines: Seq<Seq<char>>, k: nat)
    requires
        k <= lines.len(),
        lines.len() < u32::MAX,
    ensures
        scan_invariant(lines, k, scan(lines, k)),
    decreases k,
{
    if k > 0 {
        lemma_scan_invariant(lines, (k - 1) as nat);
        let prev = scan(lines, (k - 1) as nat);
        let st = scan(lines, k);
        assert((k as u32) as nat == k);
        if prev.phase is InTheirs && starts_with(lines[k - 1], ">>>>>>>"@) {
            assert(st.hunks == prev.hunks.push(st.hunks.last()));
            assert forall|j: int| 0 <= j < st.hunks.len() - 1 implies #[trigger] st.hunks[j].end_line < st.hunks[j + 1].start_line by {
                if j < prev.hunks.len() - 1 {
                    assert(st.hunks[j] == prev.hunks[j] && st.hunks[j + 1] == prev.hunks[j + 1]);
                }
            }
        }
    }
}

/// Every hunk found in a text (with fewer than 2^32 - 1 lines) is well-formed:
/// hunk `k` has index `k`; its `<<<<<<<` line comes before its `>>>>>>>` line,
/// both within the text and starting with their markers; and hunks come in file
/// order without overlapping.
pub proof fn lemma_conflict_hunks_well_formed(text: Seq<char>)
    requires
        lines_of(text).len() < u32::MAX,
    ensures
        ({
            let lines = lines_of(text);
            let hs = conflict_hunks(text);
            &&& forall|k: int| 0 <= k < hs.len() ==> {
                let h = #[trigger] hs[k];
                &&& h.index == k
                &&& 1 <= h.start_line < h.end_line <= lines.len()
                &&& starts_with(lines[h.start_line - 1], "<<<<<<<"@)
                &&& starts_with(lines[h.end_line - 1], ">>>>>>>"@)
            }
            &&& forall|k: int| 0 <= k < hs.len() - 1 ==> #[trigger] hs[k].end_line < hs[k + 1].start_line
        }),
{
    lemma_scan_invariant(lines_of(text), lines_of(text).len());
}

/// Hunk `h` has its `=======` line at line number `m`: the first such line
/// after its `<<<<<<<` line, with no `>>>>>>>` line between it and the hunk's
/// end; our side is the lines strictly between the `<<<<<<<` line and `m`,
/// their side the lines strictly between `m` and the `>>>>>>>` line, each
/// joined by newlines.
pub open spec fn hunk_sides_at(lines: Seq<Seq<char>>, h: HunkView, m: int) -> bool {
    &&& h.start_line < m < h.end_line <= lines.len()
    &&& starts_with(lines[m - 1], "======="@)
    &&& forall|i: int| h.start_line <= i < m - 1 ==> !starts_with(#[trigger] lines[i], "======="@)
    &&& forall|i: int| m <= i < h.end_line - 1 ==> !starts_with(#[trigger] lines[i], ">>>>>>>"@)
    &&& h.ours.content == join_lines(lines.subrange(h.start_line as int, m - 1))
    &&& h.theirs.content == join_lines(lines.subrange(m, h.end_line - 1))
}

/// Hunk `h` is made of its own lines, with its `=======` line somewhere.
pub open spec fn hunk_has_sides(lines: Seq<Seq<char>>, h: HunkView) -> bool {
    exists|m: int| hunk_sides_at(lines, h, m)
}

/// What the scanner's open block and its finished hunks hold after `k` lines.
spec fn scan_sides_invariant(lines: Seq<Seq<char>>, k: nat, st: ScanState) -> bool {
    &&& forall|j: int| 0 <= j < st.hunks.len() ==> hunk_has_sides(lines, #[trigger] st.hunks[j])
    &&& st.phase is InOurs ==> {
        &&& st.start_line <= k <= lines.len()
        &&& st.ours == lines.subrange(st.start_line as int, k as int)
        &&& st.theirs == Seq::<Seq<char>>::empty()
        &&& forall|i: int| st.start_line <= i < k ==> !starts_with(#[trigger] lines[i], "======="@)
    }
    &&& st.phase is InTheirs ==> {
        &&& st.start_line < st.sep_line <= k <= lines.len()
        &&& starts_with(lines[st.sep_line - 1], "======="@)
        &&& st.ours == lines.subrange(st.start_line as int, st.sep_line - 1)
        &&& forall|i: int| st.start_line <= i < st.sep_line - 1 ==> !starts_with(#[trigger] lines[i], "======="@)
        &&& st.theirs == lines.subrange(st.sep_line as int, k as int)
        &&& forall|i: int| st.sep_line <= i < k ==> !starts_with(#[trigger] lines[i], ">>>>>>>"@)
    }
}

proof fn lemma_scan_sides(lines: Seq<Seq<char>>, k: nat)
    requires
        k <= lines.len(),
        lines.len() < u32::MAX,
    ensures
        scan_sides_invariant(lines, k, scan(lines, k)),
    decreases k,
{
    if k > 0 {
        lemma_scan_sides(lines, (k - 1) as nat);
        lemma_scan_invariant(lines, (k - 1) as nat);
        let prev = scan(lines, (k - 1) as nat);
        let st = scan(lines, k);
        let line = lines[k - 1];
        assert((k as u32) as nat == k);
        assert(st.hunks.len() >= prev.hunks.len());
        assert forall|j: int| 0 <= j < prev.hunks.len() implies hunk_has_sides(lines, #[trigger] st.hunks[j]) by {
            assert(prev.hunks.len() <= st.hunks.len() && st.hunks.take(prev.hunks.len() as int) =~= prev.hunks);
            assert(st.hunks[j] == prev.hunks[j]);
            assert(hunk_has_sides(lines, prev.hunks[j]));
        }
        if !(prev.phase is InTheirs && starts_with(line, ">>>>>>>"@)) {
            assert(st.hunks == prev.hunks);
        }
        match prev.phase {
            Phase::Outside => {
                if starts_with(line, "<<<<<<<"@) {
                    assert(lines.subrange(k as int, k as int) =~= Seq::<Seq<char>>::empty());
                }
            },
            Phase::InOurs => {
                if !starts_with(line, "======="@) {
                    assert(lines.subrange(prev.start_line as int, k as int) =~= prev.ours.push(line));
                } else {
                    assert(lines.subrange(k as int, k as int) =~= Seq::<Seq<char>>::empty());
                }
            },
            Phase::InTheirs => {
                if starts_with(line, ">>>>>>>"@) {
                    let h = st.hunks.last();
                    assert(st.hunks == prev.hunks.push(h));
                    assert(hunk_sides_at(lines, h, prev.sep_line as int));
                    assert forall|j: int| 0 <= j < st.hunks.len() implies hunk_has_sides(lines, #[trigger] st.hunks[j]) by {
                        if j < prev.hunks.len() {
                            assert(st.hunks[j] == prev.hunks[j]);
                        } else {
                            assert(st.hunks[j] == h);
                        }
                    }
                } else {
                    assert(lines.subrange(prev.sep_line as int, k as int) =~= prev.theirs.push(line));
                }
            },
        }
    }
}

/// Each side of a conflict hunk is exactly its own lines: our side is the
/// lines strictly between the hunk's `<<<<<<<` line and its first `=======`
/// line, their side the lines strictly between that `=======` line and the
/// hunk's `>>>>>>>` line, each joined by newlines. No side holds a line from
/// outside its hunk.
pub proof fn lemma_hunk_sides_are_their_own_lines(text: Seq<char>)
    requires
        lines_of(text).len() < u32::MAX,
    ensures
        forall|k: int| 0 <= k < conflict_hunks(text).len() ==> hunk_has_sides(lines_of(text), #[trigger] conflict_hunks(text)[k]),
{
    let lines = lines_of(text);
    lemma_scan_sides(lines, lines.len());
}

/// Joins lines with `'\n'` into a `String`.
pub fn join_vecs(lines: &Vec<Vec<char>>) -> (s: String)
    ensures
        s@ == join_lines(vecs_view(lines@)),
{
    let ghost ls = vecs_view(lines@);
    let mut out = String::new();
    let mut i: usize = 0;
    while i < lines.len()
        invariant
            i <= lines@.len(),
            ls == vecs_view(lines@),
            out@ == join_lines(ls.take(i as int)),
        decreases lines@.len() - i,
    {
        if i > 0 {
            push_char(&mut out, '\n');
        }
        let piece = string_from_chars(&lines[i]);
        push_str(&mut out, piece.as_str());
        proof {
            assert(ls.take(i + 1).drop_last() == ls.take(i as int));
            assert(ls.take(i + 1).last() == lines@[i as int]@);
            if i == 0 {
                assert(ls.take(1) == seq![lines@[0]@]);
            }
        }
        i += 1;
    }
    assert(ls.take(lines@.len() as int) == ls);
    out
}

fn label_after_marker(line: &Vec<char>, default: &str) -> (s: String)
    requires
        line@.len() >= 7,
    ensures
        s@ == marker_label(line@, default@),
{
    let l = trim_range(line, 7);
    if l.as_str().is_empty() { owned(default) } else { l }
}

/// The conflict hunks of `text`, in file order.
pub fn parse_conflict_markers(text: &str) -> (r: Vec<ConflictHunk>)
    ensures
        hunks_view(r@) == conflict_hunks(text@),
{
    let chars = chars_of(text);
    let lines = split_lines(&chars);
    let ghost ls = vecs_view(lines@);
    proof {
        reveal_strlit("<<<<<<<");
        reveal_strlit("=======");
        reveal_strlit(">>>>>>>");
    }
    let open_marker = chars_of("<<<<<<<");
    let mid_marker = chars_of("=======");
    let close_marker = chars_of(">>>>>>>");

    let mut hunks: Vec<ConflictHunk> = Vec::new();
    let mut phase = Phase::Outside;
    let mut ours_label = String::new();
    let mut ours_lines: Vec<Vec<char>> = Vec::new();
    let mut theirs_lines: Vec<Vec<char>> = Vec::new();
    let mut start_line: u32 = 0;
    let mut idx: usize = 0;
    assert(hunks_view(hunks@) =~= Seq::<HunkView>::empty());
    assert(vecs_view(ours_lines@) =~= Seq::<Seq<char>>::empty());
    assert(vecs_view(theirs_lines@) =~= Seq::<Seq<char>>::empty());
    while idx < lines.len()
        invariant
            idx <= lines@.len(),
            ls == vecs_view(lines@),
            ls == lines_of(text@),
            open_marker@ == "<<<<<<<"@,
            mid_marker@ == "======="@,
            close_marker@ == ">>>>>>>"@,
            ({
                let st = scan(ls, idx as nat);
                &&& st.phase == phase
                &&& st.ours_label == ours_label@
                &&& st.ours == vecs_view(ours_lines@)
                &&& st.theirs == vecs_view(theirs_lines@)
                &&& st.start_line == start_line
                &&& st.hunks == hunks_view(hunks@)
            }),
        decreases lines@.len() - idx,
    {
        let line = &lines[idx];
        let lineno = #[verifier::truncate] ((idx + 1) as u32);
        let ghost prev = scan(ls, idx as nat);
        assert(ls[idx as int] == line@);
        match phase {
            Phase::Outside => {
                if matches_at(line, 0, &open_marker) {
                    proof { reveal_strlit("<<<<<<<"); }
                    assert(line@.subrange(0, 7) == "<<<<<<<"@);
                    ours_label = label_after_marker(line, "HEAD");
                    start_line = lineno;
                    ours_lines = Vec::new();
                    theirs_lines = Vec::new();
                    phase = Phase::InOurs;
                    assert(vecs_view(ours_lines@) =~= Seq::<Seq<char>>::empty());
                    assert(vecs_view(theirs_lines@) =~= Seq::<Seq<char>>::empty());
                }
            },
            Phase::InOurs => {
                if matches_at(line, 0, &mid_marker) {
                    phase = Phase::InTheirs;
                } else {
                    let ghost old_ours = ours_lines@;
                    ours_lines.push(line.clone());
                    assert(vecs_view(ours_lines@) =~= vecs_view(old_ours).push(line@));
                }
            },
            Phase::InTheirs => {
                if matches_at(line, 0, &close_marker) {
                    proof { reveal_strlit(">>>>>>>"); }
                    assert(line@.subrange(0, 7) == ">>>>>>>"@);
                    let theirs_label = label_after_marker(line, "theirs");
                    let h = ConflictHunk {
                        index: hunks.len(),
                        start_line,
                        end_line: lineno,
                        ours: ConflictSide { label: ours_label.clone(), content: join_vecs(&ours_lines) },
                        theirs: ConflictSide { label: theirs_label, content: join_vecs(&theirs_lines) },
                    };
                    let ghost hv = h@;
                    let ghost old_hunks = hunks@;
                    hunks.push(h);
                    assert(hunks_view(hunks@) =~= hunks_view(old_hunks).push(hv));
                    phase = Phase::Outside;
                } else {
                    let ghost old_theirs = theirs_lines@;
                    theirs_lines.push(line.clone());
                    assert(vecs_view(theirs_lines@) =~= vecs_view(old_theirs).push(line@));
                }
            },
        }
        idx += 1;
    }
    hunks
}

/// One line of the text, with its newline, when line number `cur` exists.
pub open spec fn line_out(lines: Seq<Seq<char>>, cur: int) -> Seq<char> {
    if 1 <= cur && cur - 1 < lines.len() { lines[cur - 1] + seq!['\n'] } else { seq![] }
}

/// Lines `from` up to (not including) `to`, each with its newline.
pub open spec fn emit(lines: Seq<Seq<char>>, from: int, to: int) -> Seq<char>
    decreases to - from,
{
    if to <= from { seq![] } else { emit(lines, from, to - 1) + line_out(lines, to - 1) }
}

/// The text chosen for hunk `k`: ours when no choice is given for it.
pub open spec fn chosen_text(h: HunkView, choices: Seq<ResolutionChoice>, k: int) -> Seq<char> {
    if 0 <= k < choices.len() {
        match choices[k] {
            ResolutionChoice::Ours => h.ours.content,
            ResolutionChoice::Theirs => h.theirs.content,
            ResolutionChoice::Custom(s) => s@,
        }
    } else {
        h.ours.content
    }
}

/// Resolved text as written out: nothing when empty, else ending with a newline.
pub open spec fn resolved_out(r: Seq<char>) -> Seq<char> {
    if r.len() == 0 { r } else if r.last() == '\n' { r } else { r.push('\n') }
}

/// The output so far and the next line number after resolving the first `k` hunks.
pub open spec fn apply_prefix(lines: Seq<Seq<char>>, hunks: Seq<HunkView>, choices: Seq<ResolutionChoice>, k: nat) -> (Seq<char>, int)
    decreases k,
{
    if k == 0 {
        (seq![], 1)
    } else {
        let (out, cur) = apply_prefix(lines, hunks, choices, (k - 1) as nat);
        let h = hunks[k - 1];
        let before = if cur < h.start_line { emit(lines, cur, h.start_line as int) } else { seq![] };
        (out + before + resolved_out(chosen_text(h, choices, k - 1)), h.end_line + 1)
    }
}

/// The text with every hunk replaced by its chosen resolution.
pub open spec fn apply_spec(text: Seq<char>, hunks: Seq<HunkView>, choices: Seq<ResolutionChoice>) -> Seq<char> {
    let lines = lines_of(text);
    let (out, cur) = apply_prefix(lines, hunks, choices, hunks.len());
    out + emit(lines, cur, lines.len() as int + 1)
}

/// Appends lines `from..to` (each with its newline) to `out`.
fn emit_lines(out: &mut String, lines: &Vec<Vec<char>>, from: u32, to: u32)
    ensures
        final(out)@ == old(out)@ + emit(vecs_view(lines@), from as int, to as int),
{
    let ghost ls = vecs_view(lines@);
    let ghost base = out@;
    let mut cur = from;
    assert(emit(ls, from as int, from as int) =~= Seq::<char>::empty());
    while cur < to
        invariant
            from <= cur <= to || (to < from && cur == from),
            ls == vecs_view(lines@),
            out@ == base + emit(ls, from as int, cur as int),
        decreases to - cur,
    {
        if cur >= 1 && ((cur - 1) as usize) < lines.len() {
            let i = (cur - 1) as usize;
            let piece = string_from_chars(&lines[i]);
            push_str(out, piece.as_str());
            push_char(out, '\n');
            assert(out@ =~= base + emit(ls, from as int, cur + 1));
        } else {
            assert(out@ =~= base + emit(ls, from as int, cur + 1));
        }
        cur += 1;
    }
    if to < from {
        assert(emit(ls, from as int, to as int) =~= Seq::<char>::empty());
    }
}

/// `text` with each hunk replaced by the content its choice selects (ours when
/// `choices` has no entry for it).
pub fn apply_resolutions(text: &str, hunks: &[ConflictHunk], choices: &[ResolutionChoice]) -> (r: String)
    requires
        forall|k: int| 0 <= k < hunks@.len() ==> (#[trigger] hunks@[k]).end_line < u32::MAX,
        lines_of(text@).len() < u32::MAX,
    ensures
        r@ == apply_spec(text@, hunks_view(hunks@), choices@),
{
    let chars = chars_of(text);
    let lines = split_lines(&chars);
    let ghost ls = vecs_view(lines@);
    let ghost hv = hunks_view(hunks@);
    let total = lines.len() as u32;
    let mut out = String::new();
    let mut current: u32 = 1;
    let mut k: usize = 0;
    while k < hunks.len()
        invariant
            k <= hunks@.len(),
            ls == vecs_view(lines@),
            ls == lines_of(text@),
            hv == hunks_view(hunks@),
            forall|j: int| 0 <= j < hunks@.len() ==> (#[trigger] hunks@[j]).end_line < u32::MAX,
            apply_prefix(ls, hv, choices@, k as nat) == (out@, current as int),
        decreases hunks@.len() - k,
    {
        let hunk = &hunks[k];
        let ghost h = hv[k as int];
        assert(h == hunk@);
        if current < hunk.start_line {
            emit_lines(&mut out, &lines, current, hunk.start_line);
        }
        let resolved: &str = if k < choices.len() {
            match &choices[k] {
                ResolutionChoice::Ours => hunk.ours.content.as_str(),
                ResolutionChoice::Theirs => hunk.theirs.content.as_str(),
                ResolutionChoice::Custom(s) => s.as_str(),
            }
        } else {
            hunk.ours.content.as_str()
        };
        assert(resolved@ == chosen_text(h, choices@, k as int));
        let rc = chars_of(resolved);
        if rc.len() > 0 {
            push_str(&mut out, resolved);
            if rc[rc.len() - 1] != '\n' {
                push_char(&mut out, '\n');
            }
        }
        current = hunk.end_line + 1;
        k += 1;
    }
    emit_lines(&mut out, &lines, current, total + 1);
    out
}

impl ConflictFile {
    /// The conflict file at `path` whose content is `text`.
    pub fn from_text(path: String, text: &str) -> (f: Self)
        ensures
            f.path == path,
            hunks_view(f.hunks@) == conflict_hunks(text@),
    {
        ConflictFile { path, hunks: parse_conflict_markers(text) }
    }

    /// `text` (the file's content) with every conflict resolved by taking our side.
    pub fn resolve_take_ours(&self, text: &str) -> (r: String)
        requires
            forall|k: int| 0 <= k < self.hunks@.len() ==> (#[trigger] self.hunks@[k]).end_line < u32::MAX,
            lines_of(text@).len() < u32::MAX,
        ensures
            r@ == apply_spec(text@, hunks_view(self.hunks@),
                Seq::new(self.hunks@.len(), |i: int| ResolutionChoice::Ours)),
    {
        let mut choices: Vec<ResolutionChoice> = Vec::new();
        let mut i: usize = 0;
        while i < self.hunks.len()
            invariant
                i <= self.hunks@.len(),
                choices@ == Seq::new(i as nat, |j: int| ResolutionChoice::Ours),
            decreases self.hunks@.len() - i,
        {
            choices.push(ResolutionChoice::Ours);
            assert(choices@ =~= Seq::new((i + 1) as nat, |j: int| ResolutionChoice::Ours));
            i += 1;
        }
        apply_resolutions(text, self.hunks.as_slice(), choices.as_slice())
    }

    /// `text` (the file's content) with every conflict resolved by taking their side.
    pub fn resolve_take_theirs(&self, text: &str) -> (r: String)
        requires
            forall|k: int| 0 <= k < self.hunks@.len() ==> (#[trigger] self.hunks@[k]).end_line < u32::MAX,
            lines_of(text@).len() < u32::MAX,
        ensures
            r@ == apply_spec(text@, hunks_view(self.hunks@),
                Seq::new(self.hunks@.len(), |i: int| ResolutionChoice::Theirs)),
    {
        let mut choices: Vec<ResolutionChoice> = Vec::new();
        let mut i: usize = 0;
        while i < self.hunks.len()
            invariant
                i <= self.hunks@.len(),
                choices@ == Seq::new(i as nat, |j: int| ResolutionChoice::Theirs),
            decreases self.hunks@.len() - i,
        {
            choices.push(ResolutionChoice::Theirs);
            assert(choices@ =~= Seq::new((i + 1) as nat, |j: int| ResolutionChoice::Theirs));
            i += 1;
        }
        apply_resolutions(text, self.hunks.as_slice(), choices.as_slice())
    }

    /// `text` (the file's content) with per-hunk choices applied; hunks beyond the
    /// end of `choices` take our side, extra choices are ignored.
    pub fn resolve_mixed(&self, text: &str, choices: &[ResolutionChoice]) -> (r: String)
        requires
            forall|k: int| 0 <= k < self.hunks@.len() ==> (#[trigger] self.hunks@[k]).end_line < u32::MAX,
            lines_of(text@).len() < u32::MAX,
        ensures
            r@ == apply_spec(text@, hunks_view(self.hunks@), choices@),
    {
        apply_resolutions(text, self.hunks.as_slice(), choices)
    }
}

} // verus!
