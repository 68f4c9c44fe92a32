//! Git status, branch, blame and diff models, and the rules that build them.
use vstd::prelude::*;
use vstd::utf8::{valid_utf8, decode_utf8};
use crate::text::{chars_of, owned, string_from_range, str_eq, trim_end, trim_end_str, utf8_decode};

verus! {

// ── Repository ───────────────────────────────────────────────────────────────

/// A repository, known by its working-directory path.
#[derive(Debug, Clone, PartialEq)]
pub struct Repository {
    path: String,
}

impl Repository {
    /// The repository rooted at `path`.
    pub fn at(path: String) -> (r: Self)
        ensures
            r.spec_path() == path@,
    {
        Repository { path }
    }

    /// The working-directory path.
    pub closed spec fn spec_path(&self) -> Seq<char> {
        self.path@
    }

    /// The working-directory path of this repository.
    pub fn path(&self) -> (p: &str)
        ensures
            p@ == self.spec_path(),
    {
        self.path.as_str()
    }
}

// ── Status ───────────────────────────────────────────────────────────────────

/// No flag: the file is unchanged.
pub const STATUS_CURRENT: u32 = 0;
pub const STATUS_INDEX_NEW: u32 = 1;
pub const STATUS_INDEX_MODIFIED: u32 = 2;
pub const STATUS_INDEX_DELETED: u32 = 4;
pub const STATUS_INDEX_RENAMED: u32 = 8;
pub const STATUS_INDEX_TYPECHANGE: u32 = 16;
pub const STATUS_WT_NEW: u32 = 128;
pub const STATUS_WT_MODIFIED: u32 = 256;
pub const STATUS_WT_DELETED: u32 = 512;
pub const STATUS_WT_TYPECHANGE: u32 = 1024;
pub const STATUS_WT_RENAMED: u32 = 2048;
pub const STATUS_IGNORED: u32 = 16384;
pub const STATUS_CONFLICTED: u32 = 32768;

/// How a file differs from the last commit.
#[derive(Debug, Clone, Copy, PartialEq, Eq, Structural)]
pub enum StatusKind {
    Untracked,
    Added,
    Modified,
    Deleted,
    Renamed,
    Copied,
    Conflicted,
    Ignored,
}

/// The status of one file.
#[derive(Debug, Clone, PartialEq)]
pub struct FileStatus {
    pub path: String,
    pub old_path: Option<String>,
    pub kind: StatusKind,
    /// `true` when the change is in the index.
    pub staged: bool,
    pub additions: u32,
    pub deletions: u32,
}

/// `true` when every bit of `flag` is set in `bits`.
pub open spec fn has_flag(bits: u32, flag: u32) -> bool {
    bits & flag == flag
}

/// The kind and staged-ness that a set of status flags stands for: a conflict
/// first, then index changes (staged), then work-tree changes (unstaged).
pub open spec fn classify_spec(bits: u32) -> (StatusKind, bool) {
    if has_flag(bits, STATUS_CONFLICTED) { (StatusKind::Conflicted, false) }
    else if has_flag(bits, STATUS_INDEX_NEW) { (StatusKind::Added, true) }
    else if has_flag(bits, STATUS_INDEX_MODIFIED) { (StatusKind::Modified, true) }
    else if has_flag(bits, STATUS_INDEX_DELETED) { (StatusKind::Deleted, true) }
    else if has_flag(bits, STATUS_INDEX_RENAMED) { (StatusKind::Renamed, true) }
    else if has_flag(bits, STATUS_INDEX_TYPECHANGE) { (StatusKind::Modified, true) }
    else if has_flag(bits, STATUS_WT_NEW) { (StatusKind::Untracked, false) }
    else if has_flag(bits, STATUS_WT_MODIFIED) { (StatusKind::Modified, false) }
    else if has_flag(bits, STATUS_WT_DELETED) { (StatusKind::Deleted, false) }
    else if has_flag(bits, STATUS_WT_RENAMED) { (StatusKind::Renamed, false) }
    else if has_flag(bits, STATUS_WT_TYPECHANGE) { (StatusKind::Modified, false) }
    else if has_flag(bits, STATUS_IGNORED) { (StatusKind::Ignored, false) }
    else { (StatusKind::Modified, false) }
}

/// The kind of change and whether it is staged, from git's status flags.
pub fn classify_status(bits: u32) -> (r: (StatusKind, bool))
    ensures
        r == classify_spec(bits),
{
    if bits & STATUS_CONFLICTED == STATUS_CONFLICTED { return (StatusKind::Conflicted, false); }
    if bits & STATUS_INDEX_NEW == STATUS_INDEX_NEW { return (StatusKind::Added, true); }
    if bits & STATUS_INDEX_MODIFIED == STATUS_INDEX_MODIFIED { return (StatusKind::Modified, true); }
    if bits & STATUS_INDEX_DELETED == STATUS_INDEX_DELETED { return (StatusKind::Deleted, true); }
    if bits & STATUS_INDEX_RENAMED == STATUS_INDEX_RENAMED { return (StatusKind::Renamed, true); }
    if bits & STATUS_INDEX_TYPECHANGE == STATUS_INDEX_TYPECHANGE { return (StatusKind::Modified, true); }
    if bits & STATUS_WT_NEW == STATUS_WT_NEW { return (StatusKind::Untracked, false); }
    if bits & STATUS_WT_MODIFIED == STATUS_WT_MODIFIED { return (StatusKind::Modified, false); }
    if bits & STATUS_WT_DELETED == STATUS_WT_DELETED { return (StatusKind::Deleted, false); }
    if bits & STATUS_WT_RENAMED == STATUS_WT_RENAMED { return (StatusKind::Renamed, false); }
    if bits & STATUS_WT_TYPECHANGE == STATUS_WT_TYPECHANGE { return (StatusKind::Modified, false); }
    if bits & STATUS_IGNORED == STATUS_IGNORED { return (StatusKind::Ignored, false); }
    (StatusKind::Modified, false)
}

/// What one status entry of git reports about a file.
#[derive(Debug, Clone, PartialEq)]
pub struct RawStatusEntry {
    /// The status flags.
    pub bits: u32,
    /// The entry's path, when it has one.
    pub path: Option<String>,
    /// The old path of the index change (head to index), if any.
    pub staged_old_path: Option<String>,
    /// The old path of the work-tree change (index to work tree), if any.
    pub unstaged_old_path: Option<String>,
    /// Lines added and removed, when they could be computed.
    pub stats: Option<(u32, u32)>,
}

/// The file status an entry gives: none for an unchanged file (no flag set);
/// otherwise its path (empty when missing), the old path of its index change
/// or else of its work-tree change, its classification, and its line counts
/// (zero when unknown).
pub fn file_status_of(e: &RawStatusEntry) -> (r: Option<FileStatus>)
    ensures
        e.bits == 0 ==> r is None,
        e.bits != 0 ==> (r matches Some(f) && {
            &&& f.path@ == or_default(e.path, seq![])
            &&& f.old_path == (if e.staged_old_path is Some { e.staged_old_path } else { e.unstaged_old_path })
            &&& (f.kind, f.staged) == classify_spec(e.bits)
            &&& (f.additions, f.deletions) == (match e.stats {
                Some(st) => st,
                None => (0u32, 0u32),
            })
        }),
{
    if e.bits == STATUS_CURRENT {
        return None;
    }
    let path = match &e.path {
        Some(p) => p.clone(),
        None => String::new(),
    };
    let old_path = match &e.staged_old_path {
        Some(p) => Some(p.clone()),
        None => match &e.unstaged_old_path {
            Some(p) => Some(p.clone()),
            None => None,
        },
    };
    let (kind, staged) = classify_status(e.bits);
    let (additions, deletions) = match e.stats {
        Some(st) => st,
        None => (0, 0),
    };
    Some(FileStatus { path, old_path, kind, staged, additions, deletions })
}

/// How the line counts of a change are found from the ids of its two sides.
#[derive(Debug, Clone, Copy, PartialEq, Eq, Structural)]
pub enum StatsPlan {
    /// Both sides known: diff the two blobs.
    DiffBlobs,
    /// Newly added: every line of the new blob is an addition.
    CountNew,
    /// Deleted: every line of the old blob is a deletion.
    CountOld,
    /// Neither side known: no counts.
    Unknown,
}

/// Choose how to count a change's lines from whether each side's id is zero.
pub fn stats_plan(old_is_zero: bool, new_is_zero: bool) -> (r: StatsPlan)
    ensures
        r == (if !old_is_zero && !new_is_zero {
            StatsPlan::DiffBlobs
        } else if old_is_zero && !new_is_zero {
            StatsPlan::CountNew
        } else if !old_is_zero {
            StatsPlan::CountOld
        } else {
            StatsPlan::Unknown
        }),
{
    match (old_is_zero, new_is_zero) {
        (false, false) => StatsPlan::DiffBlobs,
        (true, false) => StatsPlan::CountNew,
        (false, true) => StatsPlan::CountOld,
        (true, true) => StatsPlan::Unknown,
    }
}

/// Each of git's status flags names a kind of change: a file whose only
/// change flag is one of them (other bits aside) is classified as that kind,
/// staged exactly when the flag is an index flag. A conflict outweighs every
/// other flag, and a file with no change flag counts as modified in the work
/// tree. (Flag values are git's: index new 1, modified 2, deleted 4, renamed 8,
/// type change 16; work tree new 128, modified 256, deleted 512, type change
/// 1024, renamed 2048; ignored 16384; conflicted 32768.)
pub proof fn lemma_status_flags_name_their_kind(bits: u32)
    ensures
        bits & 53151 == 32768 ==> classify_spec(bits) == (StatusKind::Conflicted, false),
        bits & 53151 == 1 ==> classify_spec(bits) == (StatusKind::Added, true),
        bits & 53151 == 2 ==> classify_spec(bits) == (StatusKind::Modified, true),
        bits & 53151 == 4 ==> classify_spec(bits) == (StatusKind::Deleted, true),
        bits & 53151 == 8 ==> classify_spec(bits) == (StatusKind::Renamed, true),
        bits & 53151 == 16 ==> classify_spec(bits) == (StatusKind::Modified, true),
        bits & 53151 == 128 ==> classify_spec(bits) == (StatusKind::Untracked, false),
        bits & 53151 == 256 ==> classify_spec(bits) == (StatusKind::Modified, false),
        bits & 53151 == 512 ==> classify_spec(bits) == (StatusKind::Deleted, false),
        bits & 53151 == 1024 ==> classify_spec(bits) == (StatusKind::Modified, false),
        bits & 53151 == 2048 ==> classify_spec(bits) == (StatusKind::Renamed, false),
        bits & 53151 == 16384 ==> classify_spec(bits) == (StatusKind::Ignored, false),
        bits & 32768 == 32768 ==> classify_spec(bits) == (StatusKind::Conflicted, false),
        bits & 53151 == 0 ==> classify_spec(bits) == (StatusKind::Modified, false),
        classify_spec(bits).1 <==> (bits & 32768 != 32768 && bits & 31 != 0),
{
    assert(bits & 53151 == 32768 ==> (bits & 1 != 1 && bits & 2 != 2 && bits & 4 != 4 && bits & 8 != 8 && bits & 16 != 16 && bits & 128 != 128 && bits & 256 != 256 && bits & 512 != 512 && bits & 1024 != 1024 && bits & 2048 != 2048 && bits & 16384 != 16384 && bits & 32768 == 32768)) by (bit_vector);
    assert(bits & 53151 == 1 ==> (bits & 32768 != 32768 && bits & 2 != 2 && bits & 4 != 4 && bits & 8 != 8 && bits & 16 != 16 && bits & 128 != 128 && bits & 256 != 256 && bits & 512 != 512 && bits & 1024 != 1024 && bits & 2048 != 2048 && bits & 16384 != 16384 && bits & 1 == 1)) by (bit_vector);
    assert(bits & 53151 == 2 ==> (bits & 32768 != 32768 && bits & 1 != 1 && bits & 4 != 4 && bits & 8 != 8 && bits & 16 != 16 && bits & 128 != 128 && bits & 256 != 256 && bits & 512 != 512 && bits & 1024 != 1024 && bits & 2048 != 2048 && bits & 16384 != 16384 && bits & 2 == 2)) by (bit_vector);
    assert(bits & 53151 == 4 ==> (bits & 32768 != 32768 && bits & 1 != 1 && bits & 2 != 2 && bits & 8 != 8 && bits & 16 != 16 && bits & 128 != 128 && bits & 256 != 256 && bits & 512 != 512 && bits & 1024 != 1024 && bits & 2048 != 2048 && bits & 16384 != 16384 && bits & 4 == 4)) by (bit_vector);
    assert(bits & 53151 == 8 ==> (bits & 32768 != 32768 && bits & 1 != 1 && bits & 2 != 2 && bits & 4 != 4 && bits & 16 != 16 && bits & 128 != 128 && bits & 256 != 256 && bits & 512 != 512 && bits & 1024 != 1024 && bits & 2048 != 2048 && bits & 16384 != 16384 && bits & 8 == 8)) by (bit_vector);
    assert(bits & 53151 == 16 ==> (bits & 32768 != 32768 && bits & 1 != 1 && bits & 2 != 2 && bits & 4 != 4 && bits & 8 != 8 && bits & 128 != 128 && bits & 256 != 256 && bits & 512 != 512 && bits & 1024 != 1024 && bits & 2048 != 2048 && bits & 16384 != 16384 && bits & 16 == 16)) by (bit_vector);
    assert(bits & 53151 == 128 ==> (bits & 32768 != 32768 && bits & 1 != 1 && bits & 2 != 2 && bits & 4 != 4 && bits & 8 != 8 && bits & 16 != 16 && bits & 256 != 256 && bits & 512 != 512 && bits & 1024 != 1024 && bits & 2048 != 2048 && bits & 16384 != 16384 && bits & 128 == 128)) by (bit_vector);
    assert(bits & 53151 == 256 ==> (bits & 32768 != 32768 && bits & 1 != 1 && bits & 2 != 2 && bits & 4 != 4 && bits & 8 != 8 && bits & 16 != 16 && bits & 128 != 128 && bits & 512 != 512 && bits & 1024 != 1024 && bits & 2048 != 2048 && bits & 16384 != 16384 && bits & 256 == 256)) by (bit_vector);
    assert(bits & 53151 == 512 ==> (bits & 32768 != 32768 && bits & 1 != 1 && bits & 2 != 2 && bits & 4 != 4 && bits & 8 != 8 && bits & 16 != 16 && bits & 128 != 128 && bits & 256 != 256 && bits & 1024 != 1024 && bits & 2048 != 2048 && bits & 16384 != 16384 && bits & 512 == 512)) by (bit_vector);
    assert(bits & 53151 == 1024 ==> (bits & 32768 != 32768 && bits & 1 != 1 && bits & 2 != 2 && bits & 4 != 4 && bits & 8 != 8 && bits & 16 != 16 && bits & 128 != 128 && bits & 256 != 256 && bits & 512 != 512 && bits & 2048 != 2048 && bits & 16384 != 16384 && bits & 1024 == 1024)) by (bit_vector);
    assert(bits & 53151 == 2048 ==> (bits & 32768 != 32768 && bits & 1 != 1 && bits & 2 != 2 && bits & 4 != 4 && bits & 8 != 8 && bits & 16 != 16 && bits & 128 != 128 && bits & 256 != 256 && bits & 512 != 512 && bits & 1024 != 1024 && bits & 16384 != 16384 && bits & 2048 == 2048)) by (bit_vector);
    assert(bits & 53151 == 16384 ==> (bits & 32768 != 32768 && bits & 1 != 1 && bits & 2 != 2 && bits & 4 != 4 && bits & 8 != 8 && bits & 16 != 16 && bits & 128 != 128 && bits & 256 != 256 && bits & 512 != 512 && bits & 1024 != 1024 && bits & 2048 != 2048 && bits & 16384 == 16384)) by (bit_vector);
    assert(bits & 53151 == 0 ==> (bits & 32768 != 32768 && bits & 1 != 1 && bits & 2 != 2 && bits & 4 != 4 && bits & 8 != 8 && bits & 16 != 16 && bits & 128 != 128 && bits & 256 != 256 && bits & 512 != 512 && bits & 1024 != 1024 && bits & 2048 != 2048 && bits & 16384 != 16384)) by (bit_vector);
    assert((bits & 31 != 0) <==> (bits & 1 == 1 || bits & 2 == 2 || bits & 4 == 4 || bits & 8 == 8 || bits & 16 == 16)) by (bit_vector);
}

/// A staged status is never a conflict, an untracked file or an ignored file.
pub proof fn lemma_staged_kinds(bits: u32)
    ensures
        classify_spec(bits).1 ==> classify_spec(bits).0 != StatusKind::Conflicted
            && classify_spec(bits).0 != StatusKind::Untracked
            && classify_spec(bits).0 != StatusKind::Ignored,
{
}

/// The number of `'\n'` bytes in `b`.
pub open spec fn count_nl(b: Seq<u8>) -> nat
    decreases b.len(),
{
    if b.len() == 0 { 0 } else { count_nl(b.drop_last()) + if b.last() == 10 { 1nat } else { 0nat } }
}

/// The number of lines of a file's bytes: its newlines, plus one for a last line
/// without a newline (counted in 32 bits).
pub open spec fn line_count_spec(b: Seq<u8>) -> u32 {
    if b.len() == 0 { 0 }
    else if b.last() == 10 { count_nl(b) as u32 }
    else { ((count_nl(b) as u32) + 1) as u32 }
}

/// The number of lines of a file's bytes.
pub fn count_lines(bytes: &[u8]) -> (n: u32)
    requires
        bytes@.len() == 0 || bytes@.last() == 10 || (count_nl(bytes@) as u32) < u32::MAX,
    ensures
        n == line_count_spec(bytes@),
{
    if bytes.len() == 0 {
        return 0;
    }
    let mut count: usize = 0;
    let mut i: usize = 0;
    while i < bytes.len()
        invariant
            i <= bytes@.len(),
            count == count_nl(bytes@.take(i as int)),
            count <= i,
        decreases bytes@.len() - i,
    {
        assert(bytes@.take(i + 1).drop_last() == bytes@.take(i as int));
        if bytes[i] == 10 {
            count += 1;
        }
        i += 1;
    }
    assert(bytes@.take(bytes@.len() as int) == bytes@);
    let lf = #[verifier::truncate] (count as u32);
    if bytes[bytes.len() - 1] == 10 { lf } else { lf + 1 }
}

/// The status of every changed file of a repository.
pub struct GitStatus(pub Vec<FileStatus>);

impl GitStatus {
    /// The files whose change is staged, in order.
    pub fn staged(&self) -> (r: Vec<&FileStatus>)
        ensures
            r@.map_values(|f: &FileStatus| *f) == self.0@.filter(|f: FileStatus| f.staged),
    {
        let mut r: Vec<&FileStatus> = Vec::new();
        let mut i: usize = 0;
        while i < self.0.len()
            invariant
                i <= self.0@.len(),
                r@.map_values(|f: &FileStatus| *f) == self.0@.take(i as int).filter(|f: FileStatus| f.staged),
            decreases self.0@.len() - i,
        {
            proof {
                reveal_with_fuel(Seq::filter, 1);
                assert(self.0@.take(i + 1).drop_last() == self.0@.take(i as int));
            }
            let ghost prev = r@;
            if self.0[i].staged {
                r.push(&self.0[i]);
                assert(r@.map_values(|f: &FileStatus| *f) =~= prev.map_values(|f: &FileStatus| *f).push(self.0@[i as int]));
            }
            i += 1;
        }
        assert(self.0@.take(self.0@.len() as int) == self.0@);
        r
    }

    /// The files with an unstaged change to a tracked file, in order.
    pub fn unstaged(&self) -> (r: Vec<&FileStatus>)
        ensures
            r@.map_values(|f: &FileStatus| *f) == self.0@.filter(|f: FileStatus| !f.staged && f.kind != StatusKind::Untracked),
    {
        let mut r: Vec<&FileStatus> = Vec::new();
        let mut i: usize = 0;
        while i < self.0.len()
            invariant
                i <= self.0@.len(),
                r@.map_values(|f: &FileStatus| *f) == self.0@.take(i as int).filter(|f: FileStatus| !f.staged && f.kind != StatusKind::Untracked),
            decreases self.0@.len() - i,
        {
            proof {
                reveal_with_fuel(Seq::filter, 1);
                assert(self.0@.take(i + 1).drop_last() == self.0@.take(i as int));
            }
            let ghost prev = r@;
            if !self.0[i].staged && self.0[i].kind != StatusKind::Untracked {
                r.push(&self.0[i]);
                assert(r@.map_values(|f: &FileStatus| *f) =~= prev.map_values(|f: &FileStatus| *f).push(self.0@[i as int]));
            }
            i += 1;
        }
        assert(self.0@.take(self.0@.len() as int) == self.0@);
        r
    }

    /// The untracked files, in order.
    pub fn untracked(&self) -> (r: Vec<&FileStatus>)
        ensures
            r@.map_values(|f: &FileStatus| *f) == self.0@.filter(|f: FileStatus| f.kind == StatusKind::Untracked),
    {
        let mut r: Vec<&FileStatus> = Vec::new();
        let mut i: usize = 0;
        while i < self.0.len()
            invariant
                i <= self.0@.len(),
                r@.map_values(|f: &FileStatus| *f) == self.0@.take(i as int).filter(|f: FileStatus| f.kind == StatusKind::Untracked),
            decreases self.0@.len() - i,
        {
            proof {
                reveal_with_fuel(Seq::filter, 1);
                assert(self.0@.take(i + 1).drop_last() == self.0@.take(i as int));
            }
            let ghost prev = r@;
            if self.0[i].kind == StatusKind::Untracked {
                r.push(&self.0[i]);
                assert(r@.map_values(|f: &FileStatus| *f) =~= prev.map_values(|f: &FileStatus| *f).push(self.0@[i as int]));
            }
            i += 1;
        }
        assert(self.0@.take(self.0@.len() as int) == self.0@);
        r
    }

    /// `true` when some file is in conflict.
    pub fn has_conflicts(&self) -> (r: bool)
        ensures
            r == exists|i: int| 0 <= i < self.0@.len() && (#[trigger] self.0@[i]).kind == StatusKind::Conflicted,
    {
        let mut i: usize = 0;
        while i < self.0.len()
            invariant
                i <= self.0@.len(),
                forall|j: int| 0 <= j < i ==> (#[trigger] self.0@[j]).kind != StatusKind::Conflicted,
            decreases self.0@.len() - i,
        {
            if self.0[i].kind == StatusKind::Conflicted {
                return true;
            }
            i += 1;
        }
        false
    }

    /// All file statuses.
    pub fn files(&self) -> (r: &[FileStatus])
        ensures
            r@ == self.0@,
    {
        self.0.as_slice()
    }
}

// ── Branches ─────────────────────────────────────────────────────────────────

/// A local or remote branch.
#[derive(Debug, Clone, PartialEq)]
pub struct Branch {
    pub name: String,
    pub is_remote: bool,
    pub is_head: bool,
    pub upstream: Option<String>,
    pub commit_id: String,
    pub commit_summary: String,
}

/// The branches of a repository.
pub struct BranchList(pub Vec<Branch>);

impl BranchList {
    /// The first branch marked as HEAD, if any.
    pub fn current(&self) -> (r: Option<&Branch>)
        ensures
            r is None <==> forall|i: int| 0 <= i < self.0@.len() ==> !(#[trigger] self.0@[i]).is_head,
            r matches Some(b) ==> exists|i: int| 0 <= i < self.0@.len() && self.0@[i] == *b && b.is_head
                && forall|j: int| 0 <= j < i ==> !(#[trigger] self.0@[j]).is_head,
    {
        let mut i: usize = 0;
        while i < self.0.len()
            invariant
                i <= self.0@.len(),
                forall|j: int| 0 <= j < i ==> !(#[trigger] self.0@[j]).is_head,
            decreases self.0@.len() - i,
        {
            if self.0[i].is_head {
                return Some(&self.0[i]);
            }
            i += 1;
        }
        None
    }
}

/// `true` when a branch points at the commit HEAD points at and is local.
pub fn is_head_branch(commit_id: &str, head_id: Option<&str>, is_remote: bool) -> (r: bool)
    ensures
        r == (!is_remote && (match head_id { Some(h) => h@ == commit_id@, None => false })),
{
    match head_id {
        Some(h) => !is_remote && crate::text::str_eq(h, commit_id),
        None => false,
    }
}

// ── Blame ────────────────────────────────────────────────────────────────────

/// The commit that last touched one line.
#[derive(Debug, Clone, PartialEq)]
pub struct BlameLine {
    /// 1-based line number.
    pub line_no: u32,
    /// Abbreviated (7-character) commit id.
    pub commit_id: String,
    pub author: String,
    pub email: String,
    /// Seconds since the Unix epoch.
    pub timestamp: i64,
    pub summary: String,
}

/// What git reports for one blame hunk.
#[derive(Debug, Clone, PartialEq)]
pub struct BlameHunk {
    /// Full hexadecimal id of the commit.
    pub commit_id: String,
    pub author: Option<String>,
    pub email: Option<String>,
    pub timestamp: i64,
    /// Summary of the commit, when the commit could be read.
    pub summary: Option<String>,
    pub lines_in_hunk: usize,
}

/// Per-line blame of a file.
pub struct GitBlame(pub Vec<BlameLine>);

/// The characters of an optional string, or `default`.
pub open spec fn or_default(o: Option<String>, default: Seq<char>) -> Seq<char> {
    match o { Some(s) => s@, None => default }
}

/// The number of lines covered by the first `k` hunks.
pub open spec fn lines_before(hunks: Seq<BlameHunk>, k: int) -> nat
    decreases k,
{
    if k <= 0 { 0 } else { lines_before(hunks, k - 1) + (hunks[k - 1].lines_in_hunk as nat) }
}

fn copy_or(o: &Option<String>, default: &str) -> (s: String)
    ensures
        s@ == or_default(*o, default@),
{
    match o { Some(v) => v.clone(), None => owned(default) }
}

impl GitBlame {
    /// One line per line of every hunk, numbered from 1 in hunk order, each carrying
    /// its hunk's commit (id abbreviated to 7 characters), author (`"Unknown"` when
    /// missing), email and summary (empty when missing) and time.
    pub fn from_hunks(hunks: &[BlameHunk]) -> (b: Self)
        requires
            lines_before(hunks@, hunks@.len() as int) < u32::MAX,
        ensures
            b.0@.len() == lines_before(hunks@, hunks@.len() as int),
            forall|k: int, j: int| 0 <= k < hunks@.len() && 0 <= j < hunks@[k].lines_in_hunk ==> {
                let l = #[trigger] b.0@[lines_before(hunks@, k) + j];
                let h = hunks@[k];
                &&& l.line_no == lines_before(hunks@, k) + j + 1
                &&& l.commit_id@ == h.commit_id@.take(if h.commit_id@.len() < 7 { h.commit_id@.len() as int } else { 7 })
                &&& l.author@ == or_default(h.author, "Unknown"@)
                &&& l.email@ == or_default(h.email, ""@)
                &&& l.summary@ == or_default(h.summary, ""@)
                &&& l.timestamp == h.timestamp
            },
    {
        let mut lines: Vec<BlameLine> = Vec::new();
        let mut current_line: u32 = 1;
        let mut k: usize = 0;
        proof { lemma_lines_before_mono(hunks@); }
        while k < hunks.len()
            invariant
                k <= hunks@.len(),
                lines@.len() == lines_before(hunks@, k as int),
                current_line == lines@.len() + 1,
                lines_before(hunks@, hunks@.len() as int) < u32::MAX,
                forall|a: int, b: int| 0 <= a <= b <= hunks@.len() ==> lines_before(hunks@, a) <= lines_before(hunks@, b),
                forall|kk: int, j: int| 0 <= kk < k && 0 <= j < hunks@[kk].lines_in_hunk ==> {
                    let l = #[trigger] lines@[lines_before(hunks@, kk) + j];
                    let h = hunks@[kk];
                    &&& l.line_no == lines_before(hunks@, kk) + j + 1
                    &&& l.commit_id@ == h.commit_id@.take(if h.commit_id@.len() < 7 { h.commit_id@.len() as int } else { 7 })
                    &&& l.author@ == or_default(h.author, "Unknown"@)
                    &&& l.email@ == or_default(h.email, ""@)
                    &&& l.summary@ == or_default(h.summary, ""@)
                    &&& l.timestamp == h.timestamp
                },
            decreases hunks@.len() - k,
        {
            let h = &hunks[k];
            let id_chars = chars_of(h.commit_id.as_str());
            let n = if id_chars.len() < 7 { id_chars.len() } else { 7 };
            let commit_id = string_from_range(&id_chars, 0, n);
            let author = copy_or(&h.author, "Unknown");
            let email = copy_or(&h.email, "");
            let summary = copy_or(&h.summary, "");
            let ghost base = lines@.len();
            let ghost prefix = lines@;
            let mut j: usize = 0;
            assert(lines_before(hunks@, k + 1) == base + h.lines_in_hunk);
            while j < h.lines_in_hunk
                invariant
                    j <= h.lines_in_hunk,
                    lines@.len() == base + j,
                    current_line == lines@.len() + 1,
                    base + h.lines_in_hunk < u32::MAX,
                    forall|i: int| 0 <= i < base ==> #[trigger] lines@[i] == prefix[i],
                    prefix.len() == base,
                    forall|jj: int| 0 <= jj < j ==> {
                        let l = #[trigger] lines@[base + jj];
                        &&& l.line_no == base + jj + 1
                        &&& l.commit_id@ == commit_id@
                        &&& l.author@ == author@
                        &&& l.email@ == email@
                        &&& l.summary@ == summary@
                        &&& l.timestamp == h.timestamp
                    },
                decreases h.lines_in_hunk - j,
            {
                lines.push(BlameLine {
                    line_no: current_line,
                    commit_id: commit_id.clone(),
                    author: author.clone(),
                    email: email.clone(),
                    timestamp: h.timestamp,
                    summary: summary.clone(),
                });
                current_line += 1;
                j += 1;
            }
            proof {
                assert forall|kk: int, jj: int| 0 <= kk < k + 1 && 0 <= jj < hunks@[kk].lines_in_hunk implies {
                    let l = #[trigger] lines@[lines_before(hunks@, kk) + jj];
                    let hh = hunks@[kk];
                    &&& l.line_no == lines_before(hunks@, kk) + jj + 1
                    &&& l.commit_id@ == hh.commit_id@.take(if hh.commit_id@.len() < 7 { hh.commit_id@.len() as int } else { 7 })
                    &&& l.author@ == or_default(hh.author, "Unknown"@)
                    &&& l.email@ == or_default(hh.email, ""@)
                    &&& l.summary@ == or_default(hh.summary, ""@)
                    &&& l.timestamp == hh.timestamp
                } by {
                    if kk < k {
                        assert(lines_before(hunks@, kk + 1) <= lines_before(hunks@, k as int));
                        assert(lines@[lines_before(hunks@, kk) + jj] == prefix[lines_before(hunks@, kk) + jj]);
                    } else {
                        assert(lines@[base + jj] == lines@[lines_before(hunks@, kk) + jj]);
                    }
                }
            }
            k += 1;
        }
        GitBlame(lines)
    }
}

proof fn lemma_lines_before_mono(hunks: Seq<BlameHunk>)
    ensures
        forall|a: int, b: int| 0 <= a <= b <= hunks.len() ==> lines_before(hunks, a) <= lines_before(hunks, b),
{
    assert forall|a: int, b: int| 0 <= a <= b <= hunks.len() implies lines_before(hunks, a) <= lines_before(hunks, b) by {
        lemma_lines_before_step(hunks, a, b);
    }
}

proof fn lemma_lines_before_step(hunks: Seq<BlameHunk>, a: int, b: int)
    requires
        0 <= a <= b <= hunks.len(),
    ensures
        lines_before(hunks, a) <= lines_before(hunks, b),
    decreases b - a,
{
    if a < b {
        lemma_lines_before_step(hunks, a, b - 1);
    }
}

// ── Diffs ────────────────────────────────────────────────────────────────────

/// The kind of one line of a diff.
#[derive(Debug, Clone, Copy, PartialEq, Eq, Structural)]
pub enum DiffLineKind {
    Context,
    Added,
    Removed,
    NoNewline,
}

/// One line of a diff hunk.
#[derive(Debug, Clone, PartialEq)]
pub struct DiffLine {
    pub kind: DiffLineKind,
    pub old_lineno: Option<u32>,
    pub new_lineno: Option<u32>,
    pub content: String,
}

/// A hunk of a file diff.
#[derive(Debug, Clone, PartialEq)]
pub struct DiffHunk {
    pub header: String,
    pub old_start: u32,
    pub old_lines: u32,
    pub new_start: u32,
    pub new_lines: u32,
    pub lines: Vec<DiffLine>,
}

/// The diff of one file.
#[derive(Debug, Clone, PartialEq)]
pub struct FileDiff {
    pub path: String,
    /// The path before a rename, when the file was renamed.
    pub old_path: Option<String>,
    pub hunks: Vec<DiffHunk>,
    pub is_binary: bool,
    pub additions: u32,
    pub deletions: u32,
}

/// One line of a patch as git reports it.
#[derive(Debug, Clone, PartialEq)]
pub struct RawDiffLine {
    /// git's origin character: `'+'`, `'-'`, `'\\'`, `' '`, ...
    pub origin: char,
    pub old_lineno: Option<u32>,
    pub new_lineno: Option<u32>,
    pub content: Vec<u8>,
}

/// One hunk of a patch as git reports it.
#[derive(Debug, Clone, PartialEq)]
pub struct RawDiffHunk {
    pub header: Vec<u8>,
    pub old_start: u32,
    pub old_lines: u32,
    pub new_start: u32,
    pub new_lines: u32,
    pub lines: Vec<RawDiffLine>,
}

/// One file's patch as git reports it.
#[derive(Debug, Clone, PartialEq)]
pub struct RawFileDelta {
    pub new_path: Option<String>,
    pub old_path: Option<String>,
    pub new_is_binary: bool,
    pub old_is_binary: bool,
    /// git flagged the delta as binary.
    pub binary_flag: bool,
    pub additions: usize,
    pub deletions: usize,
    pub hunks: Vec<RawDiffHunk>,
}

/// The kind of a diff line with git origin character `c`.
pub open spec fn line_kind_spec(c: char) -> DiffLineKind {
    if c == '+' { DiffLineKind::Added }
    else if c == '-' { DiffLineKind::Removed }
    else if c == '\\' { DiffLineKind::NoNewline }
    else { DiffLineKind::Context }
}

/// The kind of a diff line from git's origin character.
pub fn line_kind(c: char) -> (k: DiffLineKind)
    ensures
        k == line_kind_spec(c),
{
    if c == '+' { DiffLineKind::Added }
    else if c == '-' { DiffLineKind::Removed }
    else if c == '\\' { DiffLineKind::NoNewline }
    else { DiffLineKind::Context }
}

/// The text of some bytes: their UTF-8 decoding, or empty when they are not UTF-8.
pub open spec fn utf8_or_empty_spec(b: Seq<u8>) -> Seq<char> {
    if valid_utf8(b) { decode_utf8(b) } else { seq![] }
}

/// The text of some bytes, invalid UTF-8 read as the empty string.
fn utf8_or_empty(b: &[u8]) -> (s: String)
    ensures
        s@ == utf8_or_empty_spec(b@),
{
    match utf8_decode(b) {
        Some(s) => s,
        None => String::new(),
    }
}

/// A diff line read from git's report of it: its kind from the origin
/// character, the same line numbers, and its text.
pub open spec fn line_from_raw(a: DiffLine, b: RawDiffLine) -> bool {
    &&& a.kind == line_kind_spec(b.origin)
    &&& a.old_lineno == b.old_lineno
    &&& a.new_lineno == b.new_lineno
    &&& a.content@ == utf8_or_empty_spec(b.content@)
}

/// A diff hunk read from git's report of it: the header without trailing
/// whitespace, the same ranges, and each line read from the line in its place.
pub open spec fn hunk_from_raw(a: DiffHunk, b: RawDiffHunk) -> bool {
    &&& a.header@ == trim_end(utf8_or_empty_spec(b.header@))
    &&& a.old_start == b.old_start
    &&& a.old_lines == b.old_lines
    &&& a.new_start == b.new_start
    &&& a.new_lines == b.new_lines
    &&& a.lines@.len() == b.lines@.len()
    &&& forall|i: int| 0 <= i < b.lines@.len() ==> line_from_raw(#[trigger] a.lines@[i], b.lines@[i])
}

/// A diff line from git's report of it.
pub fn diff_line_from_raw(l: &RawDiffLine) -> (d: DiffLine)
    ensures
        line_from_raw(d, *l),
{
    DiffLine {
        kind: line_kind(l.origin),
        old_lineno: l.old_lineno,
        new_lineno: l.new_lineno,
        content: utf8_or_empty(l.content.as_slice()),
    }
}

/// A diff hunk from git's report of it; the header loses trailing whitespace.
pub fn diff_hunk_from_raw(h: &RawDiffHunk) -> (d: DiffHunk)
    ensures
        hunk_from_raw(d, *h),
{
    let text = utf8_or_empty(h.header.as_slice());
    let header = trim_end_str(text.as_str());
    let mut lines: Vec<DiffLine> = Vec::new();
    let mut i: usize = 0;
    while i < h.lines.len()
        invariant
            i <= h.lines@.len(),
            lines@.len() == i,
            forall|j: int| 0 <= j < i ==> line_from_raw(#[trigger] lines@[j], h.lines@[j]),
        decreases h.lines@.len() - i,
    {
        lines.push(diff_line_from_raw(&h.lines[i]));
        i += 1;
    }
    DiffHunk {
        header,
        old_start: h.old_start,
        old_lines: h.old_lines,
        new_start: h.new_start,
        new_lines: h.new_lines,
        lines,
    }
}

/// The file diff of one delta: its path (the new path, else the old one, else
/// empty), the old path when a rename changed it, whether either side or git's
/// flag says binary, the line counts (in 32 bits), and its hunks.
pub fn file_diff_from_delta(d: &RawFileDelta) -> (f: FileDiff)
    ensures
        f.path@ == match d.new_path { Some(p) => p@, None => match d.old_path { Some(p) => p@, None => seq![] } },
        f.old_path matches Some(o) ==> (d.old_path matches Some(a) && d.new_path matches Some(b) && o@ == a@ && a@ != b@),
        f.old_path is None ==> !(d.old_path matches Some(a) && d.new_path matches Some(b) && a@ != b@),
        f.is_binary == (d.new_is_binary || d.old_is_binary || d.binary_flag),
        f.additions == d.additions as u32,
        f.deletions == d.deletions as u32,
        f.hunks@.len() == d.hunks@.len(),
        forall|i: int| 0 <= i < d.hunks@.len() ==> hunk_from_raw(#[trigger] f.hunks@[i], d.hunks@[i]),
{
    let path = match &d.new_path {
        Some(p) => p.clone(),
        None => match &d.old_path {
            Some(p) => p.clone(),
            None => String::new(),
        },
    };
    let old_path = match (&d.old_path, &d.new_path) {
        (Some(o), Some(n)) => if !str_eq(o.as_str(), n.as_str()) { Some(o.clone()) } else { None },
        _ => None,
    };
    let mut hunks: Vec<DiffHunk> = Vec::new();
    let mut i: usize = 0;
    while i < d.hunks.len()
        invariant
            i <= d.hunks@.len(),
            hunks@.len() == i,
            forall|j: int| 0 <= j < i ==> hunk_from_raw(#[trigger] hunks@[j], d.hunks@[j]),
        decreases d.hunks@.len() - i,
    {
        hunks.push(diff_hunk_from_raw(&d.hunks[i]));
        i += 1;
    }
    FileDiff {
        path,
        old_path,
        hunks,
        is_binary: d.new_is_binary || d.old_is_binary || d.binary_flag,
        additions: #[verifier::truncate] (d.additions as u32),
        deletions: #[verifier::truncate] (d.deletions as u32),
    }
}

// ── Commits ──────────────────────────────────────────────────────────────────

/// What to commit.
#[derive(Debug, Clone, PartialEq)]
pub struct CommitOptions {
    pub message: String,
    /// Paths to stage before committing (empty: commit the index as it is).
    pub paths: Vec<String>,
    pub author_name: Option<String>,
    pub author_email: Option<String>,
}

/// The first of `given`, `configured` that is present, else `default`.
pub open spec fn identity_choice(given: Option<String>, configured: Option<String>, default: Seq<char>) -> Seq<char> {
    match given { Some(g) => g@, None => match configured { Some(c) => c@, None => default } }
}

impl CommitOptions {
    /// The author name and email of the commit: those given in the options, else
    /// the repository's `user.name` / `user.email`, else `"Alloy Studio"` /
    /// `"alloy@local"`.
    pub fn author_identity(&self, config_name: Option<String>, config_email: Option<String>) -> (r: (String, String))
        ensures
            r.0@ == identity_choice(self.author_name, config_name, "Alloy Studio"@),
            r.1@ == identity_choice(self.author_email, config_email, "alloy@local"@),
    {
        let name = match &self.author_name {
            Some(n) => n.clone(),
            None => match config_name { Some(c) => c, None => owned("Alloy Studio") },
        };
        let email = match &self.author_email {
            Some(e) => e.clone(),
            None => match config_email { Some(c) => c, None => owned("alloy@local") },
        };
        (name, email)
    }
}

} // verus!
