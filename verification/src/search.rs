//! Text search over buffers and over the files of a workspace.
use vstd::prelude::*;
use vstd::utf8::{valid_utf8, decode_utf8};
use crate::buffer::{apply_edit_view, slice_bytes_spec, Buffer, BufferView, EditOp, EditOpView};
use crate::patterns::{
    compile, escape, escape_spec, expand_first, find_all, is_match, regex_expand, regex_find_all,
    regex_is_match, regex_valid, Pattern,
};
use crate::text::{chars_of, lines_of, owned, push_str, replace_all, replace_spec, split_lines,
    string_from_chars, str_eq, utf8_decode, vecs_view};
use crate::types::{Position, Range};
use crate::rope_text::byte_to_char_spec;
use crate::source_scan::char_index_of_byte;

verus! {

// ---------------------------------------------------------------------------
// SearchMatch
// ---------------------------------------------------------------------------

/// A single search result, referencing a location inside a document.
#[derive(Debug, Clone)]
pub struct SearchMatch {
    /// The document URI in which the match was found.
    pub uri: String,
    /// Zero-based line number.
    pub line: u32,
    /// Zero-based start column (character offset on the line).
    pub col: u32,
    /// Zero-based end column (exclusive).
    pub end_col: u32,
    /// The full text of the matching line, for context display.
    pub line_text: String,
    /// The LSP-style range of the match.
    pub range: Range,
}

/// The mathematical value of a [`SearchMatch`].
pub struct SearchMatchView {
    pub uri: Seq<char>,
    pub line: u32,
    pub col: u32,
    pub end_col: u32,
    pub line_text: Seq<char>,
    pub range: Range,
}

impl View for SearchMatch {
    type V = SearchMatchView;

    open spec fn view(&self) -> SearchMatchView {
        SearchMatchView {
            uri: self.uri@,
            line: self.line,
            col: self.col,
            end_col: self.end_col,
            line_text: self.line_text@,
            range: self.range,
        }
    }
}

pub open spec fn matches_view(v: Seq<SearchMatch>) -> Seq<SearchMatchView> {
    v.map_values(|m: SearchMatch| m@)
}

/// Why a search could not run.
#[derive(Debug, Clone, PartialEq, Eq)]
pub enum SearchError {
    /// The search pattern is not a valid regular expression.
    InvalidPattern(String),
    /// The file-name glob does not give a valid regular expression.
    InvalidGlob(String),
}

impl SearchError {
    /// A human-readable description of the error.
    pub fn message(&self) -> (r: String)
        ensures
            r@ == search_error_message(*self),
    {
        match self {
            SearchError::InvalidPattern(p) => {
                let mut m = owned("invalid regex pattern '");
                push_str(&mut m, p.as_str());
                push_str(&mut m, "'");
                m
            },
            SearchError::InvalidGlob(g) => {
                let mut m = owned("invalid glob '");
                push_str(&mut m, g.as_str());
                push_str(&mut m, "'");
                m
            },
        }
    }
}

/// `e` reports `p` as an invalid pattern.
pub open spec fn invalid_pattern_error(e: SearchError, p: Seq<char>) -> bool {
    e matches SearchError::InvalidPattern(s) && s@ == p
}

/// `e` reports `g` as an invalid glob.
pub open spec fn invalid_glob_error(e: SearchError, g: Seq<char>) -> bool {
    e matches SearchError::InvalidGlob(s) && s@ == g
}

pub open spec fn search_error_message(e: SearchError) -> Seq<char> {
    match e {
        SearchError::InvalidPattern(p) => "invalid regex pattern '"@ + p@ + "'"@,
        SearchError::InvalidGlob(g) => "invalid glob '"@ + g@ + "'"@,
    }
}

// ---------------------------------------------------------------------------
// Matching lines
// ---------------------------------------------------------------------------

/// The regular expression a search compiles: the pattern itself, or the
/// pattern with its meta characters escaped for a literal search.
pub open spec fn search_source(pattern: Seq<char>, is_regex: bool) -> Seq<char> {
    if is_regex {
        pattern
    } else {
        escape_spec(pattern)
    }
}

/// The match found at byte span `m` of line `i`; its columns are the char
/// offsets on the line of the span's ends.
pub open spec fn match_view(uri: Seq<char>, i: int, line: Seq<char>, m: (nat, nat)) -> SearchMatchView {
    let l = i as u32;
    let col = byte_to_char_spec(line, m.0 as int) as u32;
    let end_col = byte_to_char_spec(line, m.1 as int) as u32;
    SearchMatchView {
        uri,
        line: l,
        col,
        end_col,
        line_text: line,
        range: Range {
            start: Position { line: l, character: col },
            end: Position { line: l, character: end_col },
        },
    }
}

/// The matches of `pattern` in line `i`, in order.
pub open spec fn line_matches(uri: Seq<char>, pattern: Seq<char>, i: int, line: Seq<char>) -> Seq<
    SearchMatchView,
> {
    regex_find_all(pattern, line).map_values(|m: (nat, nat)| match_view(uri, i, line, m))
}

/// The matches of `pattern` in the first `n` of `lines`, line by line.
pub open spec fn matches_in_lines(
    uri: Seq<char>,
    pattern: Seq<char>,
    lines: Seq<Seq<char>>,
    n: int,
) -> Seq<SearchMatchView>
    decreases n,
{
    if n <= 0 {
        Seq::<SearchMatchView>::empty()
    } else {
        matches_in_lines(uri, pattern, lines, n - 1) + line_matches(uri, pattern, n - 1, lines[n - 1])
    }
}

/// The matches of `pattern` in `text`, line by line (as `str::lines` splits it).
pub open spec fn text_matches(uri: Seq<char>, pattern: Seq<char>, text: Seq<char>) -> Seq<
    SearchMatchView,
> {
    matches_in_lines(uri, pattern, lines_of(text), lines_of(text).len() as int)
}

/// Build the regular expression of a search.
fn build_regex(pattern: &str, is_regex: bool) -> (r: Result<Pattern, SearchError>)
    ensures
        r is Ok <==> regex_valid(search_source(pattern@, is_regex)),
        r matches Ok(p) ==> p@ == search_source(pattern@, is_regex),
        r matches Err(e) ==> invalid_pattern_error(e, pattern@),
{
    let raw = if is_regex {
        owned(pattern)
    } else {
        escape(pattern)
    };
    match compile(raw.as_str()) {
        Some(p) => Ok(p),
        None => Err(SearchError::InvalidPattern(owned(pattern))),
    }
}

/// All matches of `re` in the lines of `text`, reported against `uri`.
pub fn match_lines(uri: &str, text: &str, re: &Pattern) -> (r: Vec<SearchMatch>)
    ensures
        matches_view(r@) == text_matches(uri@, re@, text@),
{
    let chars = chars_of(text);
    let lines = split_lines(&chars);
    let ghost ls = lines_of(text@);
    let mut out: Vec<SearchMatch> = Vec::new();
    let mut i: usize = 0;
    while i < lines.len()
        invariant
            i <= lines@.len(),
            vecs_view(lines@) == ls,
            ls == lines_of(text@),
            matches_view(out@) == matches_in_lines(uri@, re@, ls, i as int),
        decreases lines@.len() - i,
    {
        let line_text = string_from_chars(&lines[i]);
        assert(line_text@ == ls[i as int]);
        let spans = find_all(re, line_text.as_str());
        let line_chars = chars_of(line_text.as_str());
        let ghost before = matches_view(out@);
        let ghost want = line_matches(uri@, re@, i as int, line_text@);
        let mut j: usize = 0;
        while j < spans.len()
            invariant
                j <= spans@.len(),
                regex_find_all(re@, line_text@) == spans@.map_values(
                    |m: (usize, usize)| (m.0 as nat, m.1 as nat),
                ),
                want == line_matches(uri@, re@, i as int, line_text@),
                line_chars@ == line_text@,
                matches_view(out@) == before + want.take(j as int),
            decreases spans@.len() - j,
        {
            let (start, end) = spans[j];
            let col = char_index_of_byte(&line_chars, start) as u32;
            let end_col = char_index_of_byte(&line_chars, end) as u32;
            let line = i as u32;
            let m = SearchMatch {
                uri: owned(uri),
                line,
                col,
                end_col,
                line_text: owned(line_text.as_str()),
                range: Range {
                    start: Position { line, character: col },
                    end: Position { line, character: end_col },
                },
            };
            let ghost prev = out@;
            out.push(m);
            proof {
                assert(want[j as int] == m@);
                assert(matches_view(out@) =~= matches_view(prev).push(m@));
                assert(want.take(j + 1) =~= want.take(j as int).push(want[j as int]));
            }
            j += 1;
        }
        proof {
            assert(want.take(j as int) =~= want);
            assert(matches_in_lines(uri@, re@, ls, i + 1) == matches_in_lines(uri@, re@, ls, i as int)
                + line_matches(uri@, re@, i as int, ls[i as int]));
        }
        i += 1;
    }
    out
}

// ---------------------------------------------------------------------------
// BufferSearcher
// ---------------------------------------------------------------------------

/// Searches and replaces text within a single [`Buffer`].
pub struct BufferSearcher;

/// The text a match at byte span `m` of `text` is replaced with: the template
/// with its capture references filled in for a regex search, the replacement
/// itself for a literal one.
pub open spec fn replacement_text(
    pattern: Seq<char>,
    text: Seq<char>,
    m: (nat, nat),
    replacement: Seq<char>,
    is_regex: bool,
) -> Seq<char> {
    if is_regex {
        regex_expand(pattern, slice_bytes_spec(text, m.0 as int, m.1 as int), replacement)
    } else {
        replacement
    }
}

/// The edit that replaces byte span `m` of the current text `cur` by `new_text`.
pub open spec fn replacement_op(cur: Seq<char>, m: (nat, nat), new_text: Seq<char>) -> EditOpView {
    EditOpView {
        byte_start: m.0,
        byte_end: m.1,
        old_text: slice_bytes_spec(cur, m.0 as int, m.1 as int),
        new_text,
    }
}

/// The buffer after applying the replacements `k - 1` down to `0`, last first.
pub open spec fn apply_replacements(
    b: BufferView,
    spans: Seq<(nat, nat)>,
    texts: Seq<Seq<char>>,
    k: int,
) -> BufferView
    decreases k,
{
    if k <= 0 {
        b
    } else {
        apply_replacements(
            apply_edit_view(b, replacement_op(b.text, spans[k - 1], texts[k - 1])),
            spans,
            texts,
            k - 1,
        )
    }
}

impl BufferSearcher {
    /// Search for `pattern` in `buf`.
    ///
    /// When `is_regex` is `false` the pattern is treated as a plain literal
    /// string (special regex characters are escaped).
    pub fn find(buf: &Buffer, uri: &str, pattern: &str, is_regex: bool) -> (r: Result<
        Vec<SearchMatch>,
        SearchError,
    >)
        ensures
            pattern@.len() == 0 ==> (r matches Ok(v) && v@.len() == 0),
            pattern@.len() > 0 && !regex_valid(search_source(pattern@, is_regex)) ==> (r matches Err(
                e,
            ) && invalid_pattern_error(e, pattern@)),
            pattern@.len() > 0 && regex_valid(search_source(pattern@, is_regex)) ==> (r matches Ok(v)
                && matches_view(v@) == text_matches(uri@, search_source(pattern@, is_regex), buf@.text)),
    {
        if pattern.is_empty() {
            return Ok(Vec::new());
        }
        let re = match build_regex(pattern, is_regex) {
            Ok(re) => re,
            Err(e) => return Err(e),
        };
        let text = buf.to_string();
        Ok(match_lines(uri, text.as_str(), &re))
    }

    /// Replace all occurrences of `pattern` with `replacement` in `buf`.
    ///
    /// Applies each replacement as an individual [`EditOp`] in **reverse**
    /// order (highest offset first) so earlier offsets stay valid.
    ///
    /// Returns the number of replacements made.
    pub fn replace(buf: &mut Buffer, pattern: &str, replacement: &str, is_regex: bool) -> (r: Result<
        usize,
        SearchError,
    >)
        ensures
            pattern@.len() == 0 ==> r == Ok::<usize, SearchError>(0) && final(buf)@ == old(buf)@,
            pattern@.len() > 0 && !regex_valid(search_source(pattern@, is_regex)) ==> (r matches Err(
                e,
            ) && invalid_pattern_error(e, pattern@) && final(buf)@ == old(buf)@),
            pattern@.len() > 0 && regex_valid(search_source(pattern@, is_regex)) ==> {
                let src = search_source(pattern@, is_regex);
                let text = old(buf)@.text;
                let spans = regex_find_all(src, text);
                let texts = spans.map_values(
                    |m: (nat, nat)| replacement_text(src, text, m, replacement@, is_regex),
                );
                &&& r == Ok::<usize, SearchError>(spans.len() as usize)
                &&& final(buf)@ == apply_replacements(old(buf)@, spans, texts, spans.len() as int)
            },
    {
        if pattern.is_empty() {
            return Ok(0);
        }
        let re = match build_regex(pattern, is_regex) {
            Ok(re) => re,
            Err(e) => return Err(e),
        };
        let ghost src = re@;
        let ghost b0 = buf@;
        let text = buf.to_string();
        let spans = find_all(&re, text.as_str());
        let ghost gspans = regex_find_all(src, text@);
        let ghost gtexts = gspans.map_values(
            |m: (nat, nat)| replacement_text(src, text@, m, replacement@, is_regex),
        );
        // Collect the replacement text of every match.
        let mut texts: Vec<String> = Vec::new();
        let mut i: usize = 0;
        while i < spans.len()
            invariant
                i <= spans@.len(),
                gspans == spans@.map_values(|m: (usize, usize)| (m.0 as nat, m.1 as nat)),
                gtexts == gspans.map_values(
                    |m: (nat, nat)| replacement_text(src, text@, m, replacement@, is_regex),
                ),
                src == re@,
                text@ == b0.text,
                buf@ == b0,
                texts@.len() == i,
                forall|k: int| 0 <= k < i ==> #[trigger] texts@[k]@ == gtexts[k],
            decreases spans@.len() - i,
        {
            let (start, end) = spans[i];
            let t = if is_regex {
                let matched = buf.slice_bytes(start, end);
                expand_first(&re, matched.as_str(), replacement)
            } else {
                owned(replacement)
            };
            texts.push(t);
            i += 1;
        }
        let count = spans.len();
        // Apply in reverse order.
        let mut k: usize = count;
        while k > 0
            invariant
                k <= spans@.len(),
                count == spans@.len(),
                gspans == spans@.map_values(|m: (usize, usize)| (m.0 as nat, m.1 as nat)),
                texts@.len() == spans@.len(),
                forall|j: int| 0 <= j < texts@.len() ==> #[trigger] texts@[j]@ == gtexts[j],
                gtexts.len() == gspans.len(),
                apply_replacements(buf@, gspans, gtexts, k as int) == apply_replacements(
                    b0,
                    gspans,
                    gtexts,
                    count as int,
                ),
            decreases k,
        {
            k -= 1;
            let (byte_start, byte_end) = spans[k];
            let old_text = buf.slice_bytes(byte_start, byte_end);
            let new_text = owned(texts[k].as_str());
            let op = EditOp { byte_start, byte_end, old_text, new_text };
            assert(op@ == replacement_op(buf@.text, gspans[k as int], gtexts[k as int]));
            buf.apply_edit(op);
        }
        Ok(count)
    }
}

// ---------------------------------------------------------------------------
// Workspace search
// ---------------------------------------------------------------------------

/// Directories to skip during workspace search.
pub fn is_ignored_dir(name: &str) -> (r: bool)
    ensures
        r <==> (name@ == ".git"@ || name@ == "build"@ || name@ == ".gradle"@ || name@ == ".idea"@
            || name@ == "node_modules"@ || name@ == "__pycache__"@),
{
    str_eq(name, ".git") || str_eq(name, "build") || str_eq(name, ".gradle") || str_eq(name, ".idea")
        || str_eq(name, "node_modules") || str_eq(name, "__pycache__")
}

/// The regular expression of a simple file-name glob: `*` matches any run of
/// characters, `?` any one character, and the whole name must match.
pub open spec fn glob_regex_spec(glob: Seq<char>) -> Seq<char> {
    "^"@ + replace_spec(replace_spec(escape_spec(glob), "\\*"@, ".*"@), "\\?"@, "."@) + "$"@
}

/// Converts a simple glob (`*` → `.*`, `?` → `.`) to an anchored regex.
pub fn glob_to_regex(glob: &str) -> (r: String)
    ensures
        r@ == glob_regex_spec(glob@),
{
    let escaped = escape(glob);
    proof {
        reveal_strlit("\\*");
        reveal_strlit("\\?");
    }
    let star = replace_all(escaped.as_str(), "\\*", ".*");
    let any = replace_all(star.as_str(), "\\?", ".");
    let mut r = owned("^");
    push_str(&mut r, any.as_str());
    push_str(&mut r, "$");
    r
}

/// Number of leading bytes inspected for a NUL byte to detect binary files.
pub const BINARY_PROBE_BYTES: usize = 8192;

/// A file is binary when its first [`BINARY_PROBE_BYTES`] bytes hold a NUL byte.
pub open spec fn is_binary_spec(bytes: Seq<u8>) -> bool {
    exists|i: int| 0 <= i < bytes.len() && i < BINARY_PROBE_BYTES && bytes[i] == 0
}

/// Whether the first [`BINARY_PROBE_BYTES`] bytes hold a NUL byte.
pub fn is_binary(bytes: &[u8]) -> (r: bool)
    ensures
        r == is_binary_spec(bytes@),
{
    let n = if bytes.len() < BINARY_PROBE_BYTES {
        bytes.len()
    } else {
        BINARY_PROBE_BYTES
    };
    let mut i: usize = 0;
    while i < n
        invariant
            i <= n,
            n <= bytes@.len(),
            n <= BINARY_PROBE_BYTES,
            n == bytes@.len() || n == BINARY_PROBE_BYTES,
            forall|j: int| 0 <= j < i ==> bytes@[j] != 0,
        decreases n - i,
    {
        if bytes[i] == 0 {
            return true;
        }
        i += 1;
    }
    false
}

/// A prepared workspace search: the pattern and the optional file-name filter.
pub struct WorkspaceQuery {
    re: Pattern,
    glob: Option<Pattern>,
}

impl WorkspaceQuery {
    /// The regular expression searched for.
    pub closed spec fn pattern(&self) -> Seq<char> {
        self.re@
    }

    /// The file-name filter, as a regular expression.
    pub closed spec fn glob(&self) -> Option<Seq<char>> {
        match self.glob {
            Some(g) => Some(g@),
            None => None,
        }
    }

    /// Prepare a workspace search for `pattern`; `None` for an empty pattern,
    /// which matches nothing.
    pub fn new(pattern: &str, is_regex: bool, file_glob: Option<&str>) -> (r: Result<
        Option<WorkspaceQuery>,
        SearchError,
    >)
        ensures
            pattern@.len() == 0 ==> r matches Ok(None),
            pattern@.len() > 0 && !regex_valid(search_source(pattern@, is_regex)) ==> (r matches Err(
                e,
            ) && invalid_pattern_error(e, pattern@)),
            pattern@.len() > 0 && regex_valid(search_source(pattern@, is_regex)) ==> match file_glob {
                None => (r matches Ok(Some(q)) && q.pattern() == search_source(pattern@, is_regex)
                    && q.glob() is None),
                Some(g) => if regex_valid(glob_regex_spec(g@)) {
                    (r matches Ok(Some(q)) && q.pattern() == search_source(pattern@, is_regex)
                        && q.glob() == Some(glob_regex_spec(g@)))
                } else {
                    (r matches Err(e) && invalid_glob_error(e, g@))
                },
            },
    {
        if pattern.is_empty() {
            return Ok(None);
        }
        let re = match build_regex(pattern, is_regex) {
            Ok(re) => re,
            Err(e) => return Err(e),
        };
        let glob = match file_glob {
            None => None,
            Some(g) => {
                let source = glob_to_regex(g);
                match compile(source.as_str()) {
                    Some(p) => Some(p),
                    None => return Err(SearchError::InvalidGlob(owned(g))),
                }
            },
        };
        Ok(Some(WorkspaceQuery { re, glob }))
    }

    /// The matches in one file: none when its name fails the glob, when it is
    /// binary or when it is not UTF-8; otherwise the matches of every line.
    pub fn search_file(&self, uri: &str, file_name: &str, bytes: &[u8]) -> (r: Vec<SearchMatch>)
        ensures
            ({
                let skipped = (self.glob() matches Some(g) && !regex_is_match(g, file_name@))
                    || is_binary_spec(bytes@) || !valid_utf8(bytes@);
                &&& skipped ==> r@.len() == 0
                &&& !skipped ==> matches_view(r@) == text_matches(
                    uri@,
                    self.pattern(),
                    decode_utf8(bytes@),
                )
            }),
    {
        match &self.glob {
            Some(g) => {
                if !is_match(g, file_name) {
                    return Vec::new();
                }
            },
            None => {},
        }
        if is_binary(bytes) {
            return Vec::new();
        }
        let text = match utf8_decode(bytes) {
            Some(t) => t,
            None => return Vec::new(),
        };
        match_lines(uri, text.as_str(), &self.re)
    }
}

} // verus!
