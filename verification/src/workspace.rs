//! The rules of the workspace: which names the file tree skips, how a file-tree
//! entry is described, and which directory is the project root.
use vstd::prelude::*;
use crate::document::{language_id_spec, path_extension, Document};
use crate::text::{owned, replace_all, replace_spec, str_eq};

verus! {

/// Directories and files skipped when building the file tree.
pub open spec fn is_ignored_spec(name: Seq<char>) -> bool {
    name == ".git"@ || name == "build"@ || name == ".gradle"@ || name == ".idea"@ || name
        == ".DS_Store"@ || name == "node_modules"@ || name == "__pycache__"@
}

/// Directories/files to skip when building the file tree.
pub fn is_ignored(name: &str) -> (r: bool)
    ensures
        r == is_ignored_spec(name@),
{
    str_eq(name, ".git") || str_eq(name, "build") || str_eq(name, ".gradle") || str_eq(name, ".idea")
        || str_eq(name, ".DS_Store") || str_eq(name, "node_modules") || str_eq(name, "__pycache__")
}

/// What `Path::strip_prefix` gives for a path and a base, both given as strings:
/// the rest of the path when the base's components begin it.
pub uninterp spec fn path_strip_prefix(path: Seq<char>, base: Seq<char>) -> Option<Seq<char>>;

/// `std::path::Path::strip_prefix`; the result is `path_strip_prefix` of the
/// path and the base.
#[verifier::external_body]
fn strip_prefix_of(path: &str, base: &str) -> (r: Option<String>)
    ensures
        match r {
            Some(p) => path_strip_prefix(path@, base@) == Some(p@),
            None => path_strip_prefix(path@, base@) is None,
        },
{
    std::path::Path::new(path).strip_prefix(base).ok().map(|p| p.to_string_lossy().into_owned())
}

/// A single entry in the workspace file tree.
#[derive(Debug, Clone)]
pub struct FileEntry {
    /// Absolute path.
    pub path: String,
    /// Path relative to the workspace root, using `/` as separator.
    pub relative_path: String,
    /// `true` for directories, `false` for files.
    pub is_dir: bool,
    /// Depth from the workspace root (root itself is depth 0).
    pub depth: usize,
    /// Language identifier for files, `None` for directories.
    pub language_id: Option<String>,
}

/// The path of `path` relative to `root` with `/` separators (the whole path
/// when it is not under `root`).
pub open spec fn relative_path_spec(root: Seq<char>, path: Seq<char>) -> Seq<char> {
    let rel = match path_strip_prefix(path, root) {
        Some(p) => p,
        None => path,
    };
    replace_spec(rel, seq!['\\'], seq!['/'])
}

impl FileEntry {
    /// The entry for `path`, found `depth` levels below `root` by a walk.
    pub fn from_walk(root: &str, path: &str, is_dir: bool, depth: usize) -> (e: FileEntry)
        ensures
            e.path@ == path@,
            e.relative_path@ == relative_path_spec(root@, path@),
            e.is_dir == is_dir,
            e.depth == depth,
            is_dir ==> e.language_id is None,
            !is_dir ==> (e.language_id matches Some(l) && l@ == language_id_spec(path_extension(path@))),
    {
        let rel = match strip_prefix_of(path, root) {
            Some(p) => p,
            None => owned(path),
        };
        proof {
            reveal_strlit("\\");
            reveal_strlit("/");
            assert("\\"@ =~= seq!['\\']);
            assert("/"@ =~= seq!['/']);
        }
        let relative_path = replace_all(rel.as_str(), "\\", "/");
        let language_id = if is_dir {
            None
        } else {
            Some(owned(Document::language_id_for_path(path)))
        };
        FileEntry { path: owned(path), relative_path, is_dir, depth, language_id }
    }
}

/// What one directory on the way up from the start holds.
#[derive(Debug, Clone)]
pub struct RootLevel {
    /// The directory.
    pub dir: String,
    /// It holds `build.gradle` or `FtcRobotController`.
    pub has_project_marker: bool,
    /// It holds `.git`.
    pub has_git: bool,
}

/// The first level at or after `i` with a project marker.
pub open spec fn first_marker(levels: Seq<RootLevel>, i: int) -> Option<int>
    decreases levels.len() - i,
{
    if i < 0 || i >= levels.len() {
        None
    } else if levels[i].has_project_marker {
        Some(i)
    } else {
        first_marker(levels, i + 1)
    }
}

/// The first level at or after `i` with a `.git` directory.
pub open spec fn first_git(levels: Seq<RootLevel>, i: int) -> Option<int>
    decreases levels.len() - i,
{
    if i < 0 || i >= levels.len() {
        None
    } else if levels[i].has_git {
        Some(i)
    } else {
        first_git(levels, i + 1)
    }
}

/// The project root: the nearest directory with a project marker, else the
/// nearest with `.git`, else the start itself.
pub open spec fn pick_root_spec(start: Seq<char>, levels: Seq<RootLevel>) -> Seq<char> {
    match first_marker(levels, 0) {
        Some(i) => levels[i].dir@,
        None => match first_git(levels, 0) {
            Some(i) => levels[i].dir@,
            None => start,
        },
    }
}

/// Chooses the project root among the directories from the start upwards
/// (`levels[0]` is the start's own directory).
pub fn pick_root(start: &str, levels: &Vec<RootLevel>) -> (r: String)
    ensures
        r@ == pick_root_spec(start@, levels@),
{
    let mut git_root: Option<usize> = None;
    let mut i: usize = 0;
    while i < levels.len()
        invariant
            i <= levels@.len(),
            first_marker(levels@, 0) == first_marker(levels@, i as int),
            match git_root {
                Some(g) => g < i && first_git(levels@, 0) == Some(g as int),
                None => first_git(levels@, 0) == first_git(levels@, i as int),
            },
        decreases levels@.len() - i,
    {
        if levels[i].has_project_marker {
            return owned(levels[i].dir.as_str());
        }
        if git_root.is_none() && levels[i].has_git {
            git_root = Some(i);
        }
        i += 1;
    }
    match git_root {
        Some(g) => owned(levels[g].dir.as_str()),
        None => owned(start),
    }
}

} // verus!
