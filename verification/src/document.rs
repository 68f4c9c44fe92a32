//! A document represents an open file with its text buffer and selections.
use vstd::prelude::*;
use crate::buffer::{text_edit_result, Buffer, BufferView, EditOpView, PositionOutOfRange};
use crate::selection::{Cursor, Selection, SelectionSet};
use crate::text::{chars_of, owned, push_str, str_eq, string_from_range};
use crate::types::TextEdit;

verus! {

// ---------------------------------------------------------------------------
// Paths
// ---------------------------------------------------------------------------

/// What `Path::extension` gives for a path: the part of its file name after the
/// last dot, if any.
pub uninterp spec fn path_extension(path: Seq<char>) -> Option<Seq<char>>;

/// `std::path::Path::extension` of a path given as a string; the result is
/// `path_extension` of it.
#[verifier::external_body]
fn extension_of(path: &str) -> (r: Option<String>)
    ensures
        match r {
            Some(e) => path_extension(path@) == Some(e@),
            None => path_extension(path@) is None,
        },
{
    std::path::Path::new(path).extension().and_then(|e| e.to_str()).map(|e| e.to_string())
}

/// Whether the path's extension is `ext`.
pub fn is_extension(path: &str, ext: &str) -> (r: bool)
    ensures
        r == (path_extension(path@) == Some(ext@)),
{
    match extension_of(path) {
        Some(e) => str_eq(e.as_str(), ext),
        None => false,
    }
}

/// The LSP language identifier of a file extension.
pub open spec fn language_id_spec(ext: Option<Seq<char>>) -> Seq<char> {
    match ext {
        Some(e) => if e == "java"@ {
            "java"@
        } else if e == "kt"@ || e == "kts"@ {
            "kotlin"@
        } else if e == "gradle"@ {
            "groovy"@
        } else if e == "xml"@ {
            "xml"@
        } else if e == "json"@ {
            "json"@
        } else if e == "md"@ {
            "markdown"@
        } else if e == "toml"@ {
            "toml"@
        } else if e == "yaml"@ || e == "yml"@ {
            "yaml"@
        } else if e == "properties"@ {
            "properties"@
        } else {
            "plaintext"@
        },
        None => "plaintext"@,
    }
}

/// The prefix of a `file://` URI.
pub open spec fn file_scheme() -> Seq<char> {
    seq!['f', 'i', 'l', 'e', ':', '/', '/']
}

// ---------------------------------------------------------------------------
// Sorting edits
// ---------------------------------------------------------------------------

/// `a` comes before `b` when edits are ordered from the end of the document
/// back: its start is on a later line, or later on the same line.
pub open spec fn starts_later(a: TextEdit, b: TextEdit) -> bool {
    ||| a.range.start.line > b.range.start.line
    ||| (a.range.start.line == b.range.start.line && a.range.start.character
        > b.range.start.character)
}

/// `e` inserted into the ordered `s` after every edit that does not start
/// earlier than it (so edits with the same start keep their order).
pub open spec fn insert_ordered(s: Seq<TextEdit>, e: TextEdit) -> Seq<TextEdit>
    decreases s.len(),
{
    if s.len() == 0 {
        seq![e]
    } else if starts_later(e, s[0]) {
        seq![e] + s
    } else {
        seq![s[0]] + insert_ordered(s.drop_first(), e)
    }
}

/// The edits ordered from the last start to the first, edits with the same
/// start in their given order (a stable sort).
pub open spec fn sort_edits(s: Seq<TextEdit>) -> Seq<TextEdit>
    decreases s.len(),
{
    if s.len() == 0 {
        Seq::<TextEdit>::empty()
    } else {
        insert_ordered(sort_edits(s.drop_last()), s.last())
    }
}

/// No edit of `s` starts later than an edit before it.
pub open spec fn ordered_from_end(s: Seq<TextEdit>) -> bool {
    forall|i: int, j: int| 0 <= i < j < s.len() ==> !starts_later(#[trigger] s[j], #[trigger] s[i])
}

proof fn lemma_insert_ordered_sorted(s: Seq<TextEdit>, e: TextEdit)
    requires
        ordered_from_end(s),
    ensures
        ordered_from_end(insert_ordered(s, e)),
        insert_ordered(s, e).len() == s.len() + 1,
        forall|x: TextEdit| #[trigger] insert_ordered(s, e).contains(x) ==> s.contains(x) || x == e,
    decreases s.len(),
{
    let t = insert_ordered(s, e);
    if s.len() == 0 {
        assert forall|x: TextEdit| #[trigger] t.contains(x) implies s.contains(x) || x == e by {
            assert(t[0] == e);
        }
    } else if starts_later(e, s[0]) {
        assert(t == seq![e] + s);
        assert forall|i: int, j: int| 0 <= i < j < t.len() implies !starts_later(#[trigger] t[j], #[trigger] t[i]) by {
            if i == 0 {
                assert(t[j] == s[j - 1]);
                if j - 1 > 0 {
                    assert(!starts_later(s[j - 1], s[0]));
                }
            } else {
                assert(t[i] == s[i - 1] && t[j] == s[j - 1]);
            }
        }
        assert forall|x: TextEdit| #[trigger] t.contains(x) implies s.contains(x) || x == e by {
            let k = choose|k: int| 0 <= k < t.len() && t[k] == x;
            if k > 0 {
                assert(s[k - 1] == x);
            }
        }
    } else {
        let d = s.drop_first();
        assert forall|i: int, j: int| 0 <= i < j < d.len() implies !starts_later(#[trigger] d[j], #[trigger] d[i]) by {
            assert(d[i] == s[i + 1] && d[j] == s[j + 1]);
        }
        lemma_insert_ordered_sorted(d, e);
        let u = insert_ordered(d, e);
        assert(t == seq![s[0]] + u);
        assert forall|i: int, j: int| 0 <= i < j < t.len() implies !starts_later(#[trigger] t[j], #[trigger] t[i]) by {
            if i == 0 {
                assert(t[0] == s[0]);
                assert(t[j] == u[j - 1]);
                assert(u.contains(u[j - 1]));
                if u[j - 1] != e {
                    let m = choose|m: int| 0 <= m < d.len() && d[m] == u[j - 1];
                    assert(!starts_later(s[m + 1], s[0]));
                }
            } else {
                assert(t[i] == u[i - 1] && t[j] == u[j - 1]);
            }
        }
        assert forall|x: TextEdit| #[trigger] t.contains(x) implies s.contains(x) || x == e by {
            let k = choose|k: int| 0 <= k < t.len() && t[k] == x;
            if k > 0 {
                assert(u[k - 1] == x);
                assert(u.contains(x));
                if x != e {
                    let m = choose|m: int| 0 <= m < d.len() && d[m] == x;
                    assert(s[m + 1] == x);
                }
            } else {
                assert(s[0] == x);
            }
        }
    }
}

/// Sorted edits run from the end of the document back: no edit starts later
/// than one applied before it.
pub proof fn lemma_sorted_edits_from_end(s: Seq<TextEdit>)
    ensures
        ordered_from_end(sort_edits(s)),
        sort_edits(s).len() == s.len(),
    decreases s.len(),
{
    if s.len() > 0 {
        lemma_sorted_edits_from_end(s.drop_last());
        lemma_insert_ordered_sorted(sort_edits(s.drop_last()), s.last());
    }
}

/// The buffer after applying `es` in order, stopping at the first edit that
/// names a position the buffer does not have; that edit's error comes along.
pub open spec fn apply_edits_spec(b: BufferView, es: Seq<TextEdit>) -> (
    BufferView,
    Option<PositionOutOfRange>,
)
    decreases es.len(),
{
    if es.len() == 0 {
        (b, None)
    } else {
        match text_edit_result(b, es[0]) {
            Err(e) => (b, Some(e)),
            Ok(nb) => apply_edits_spec(nb, es.drop_first()),
        }
    }
}

/// Where `e` goes in the ordered index list `order`: before the first edit
/// that it starts later than.
fn insertion_point(edits: &[TextEdit], order: &Vec<usize>, e: usize) -> (j: usize)
    requires
        e < edits@.len(),
        forall|k: int| 0 <= k < order@.len() ==> order@[k] < edits@.len(),
    ensures
        j <= order@.len(),
        forall|k: int| 0 <= k < j ==> !starts_later(edits@[e as int], edits@[order@[k] as int]),
        j < order@.len() ==> starts_later(edits@[e as int], edits@[order@[j as int] as int]),
{
    let mut j: usize = 0;
    while j < order.len()
        invariant
            j <= order@.len(),
            e < edits@.len(),
            forall|k: int| 0 <= k < order@.len() ==> order@[k] < edits@.len(),
            forall|k: int| 0 <= k < j ==> !starts_later(edits@[e as int], edits@[order@[k] as int]),
        decreases order@.len() - j,
    {
        let a = &edits[e];
        let b = &edits[order[j]];
        let later = a.range.start.line > b.range.start.line || (a.range.start.line
            == b.range.start.line && a.range.start.character > b.range.start.character);
        if later {
            return j;
        }
        j += 1;
    }
    j
}

pub open spec fn pick(edits: Seq<TextEdit>, order: Seq<usize>) -> Seq<TextEdit> {
    order.map_values(|k: usize| edits[k as int])
}

proof fn lemma_insert_at(s: Seq<TextEdit>, e: TextEdit, j: int)
    requires
        0 <= j <= s.len(),
        forall|k: int| 0 <= k < j ==> !starts_later(e, s[k]),
        j < s.len() ==> starts_later(e, s[j]),
    ensures
        insert_ordered(s, e) == s.take(j) + seq![e] + s.skip(j),
    decreases s.len(),
{
    if s.len() == 0 {
        assert(s.take(j) + seq![e] + s.skip(j) =~= seq![e]);
    } else if j == 0 {
        assert(s.take(0) + seq![e] + s.skip(0) =~= seq![e] + s);
    } else {
        let t = s.drop_first();
        assert forall|k: int| 0 <= k < j - 1 implies !starts_later(e, t[k]) by {
            assert(t[k] == s[k + 1]);
        }
        lemma_insert_at(t, e, j - 1);
        assert(seq![s[0]] + (t.take(j - 1) + seq![e] + t.skip(j - 1)) =~= s.take(j) + seq![e]
            + s.skip(j));
    }
}

/// The indices of `edits` in the order of [`sort_edits`].
fn sorted_order(edits: &[TextEdit]) -> (order: Vec<usize>)
    ensures
        forall|k: int| 0 <= k < order@.len() ==> order@[k] < edits@.len(),
        pick(edits@, order@) == sort_edits(edits@),
{
    let mut order: Vec<usize> = Vec::new();
    let mut i: usize = 0;
    while i < edits.len()
        invariant
            i <= edits@.len(),
            forall|k: int| 0 <= k < order@.len() ==> order@[k] < edits@.len(),
            pick(edits@, order@) == sort_edits(edits@.take(i as int)),
        decreases edits@.len() - i,
    {
        let j = insertion_point(edits, &order, i);
        let ghost before = pick(edits@, order@);
        proof {
            assert forall|k: int| 0 <= k < j implies !starts_later(edits@[i as int], #[trigger] before[k]) by {}
            lemma_insert_at(before, edits@[i as int], j as int);
            assert(edits@.take(i + 1).drop_last() =~= edits@.take(i as int));
        }
        order.insert(j, i);
        proof {
            assert(pick(edits@, order@) =~= before.take(j as int) + seq![edits@[i as int]] + before.skip(j as int));
        }
        i += 1;
    }
    assert(edits@.take(edits@.len() as int) =~= edits@);
    order
}

// ---------------------------------------------------------------------------
// Document
// ---------------------------------------------------------------------------

/// An open file in the editor, combining a [`Buffer`] with metadata and
/// multi-cursor selection state.
pub struct Document {
    /// The `file://` URI that uniquely identifies this document.
    pub uri: String,
    /// The file-system path for reading/writing.
    pub path: String,
    /// Language identifier string (e.g. `"java"`, `"kotlin"`, `"xml"`).
    pub language_id: String,
    /// The text content managed by a rope-backed [`Buffer`].
    pub buffer: Buffer,
    /// LSP document version, incremented by the client on each change.
    pub version: i32,
    selections: SelectionSet,
}

/// The mathematical value of a [`Document`].
pub struct DocumentView {
    pub uri: Seq<char>,
    pub path: Seq<char>,
    pub language_id: Seq<char>,
    pub buffer: BufferView,
    pub version: i32,
    pub selections: SelectionSet,
}

impl View for Document {
    type V = DocumentView;

    closed spec fn view(&self) -> DocumentView {
        DocumentView {
            uri: self.uri@,
            path: self.path@,
            language_id: self.language_id@,
            buffer: self.buffer@,
            version: self.version,
            selections: self.selections,
        }
    }
}

impl Document {
    /// Construct a document from an in-memory string (e.g. from an LSP
    /// `textDocument/didOpen` notification).
    pub fn from_text(path: String, text: String, version: i32) -> (d: Self)
        ensures
            d@.uri == file_scheme() + path@,
            d@.path == path@,
            d@.language_id == language_id_spec(path_extension(path@)),
            d@.buffer.text == text@,
            d@.buffer.history.len() == 0,
            d@.buffer.redo.len() == 0,
            !d@.buffer.dirty,
            d@.buffer.version == 0,
            d@.version == version,
            d@.selections@ == (seq![Selection { anchor: Cursor { line: 0, character: 0 }, active: Cursor { line: 0, character: 0 } }], 0nat),
    {
        let language_id = owned(Self::language_id_for_path(path.as_str()));
        let uri = Self::path_to_uri(path.as_str());
        let buffer = Buffer::from_str(text.as_str());
        Document {
            uri,
            path,
            language_id,
            buffer,
            version,
            selections: SelectionSet::new(Selection::cursor(Cursor::new(0, 0))),
        }
    }

    /// Replace the entire buffer content (e.g. on `textDocument/didChange`
    /// with a single full-document range).
    pub fn apply_full_text(&mut self, text: &str, version: i32)
        ensures
            final(self)@.buffer.text == text@,
            final(self)@.buffer.history.len() == 0,
            final(self)@.buffer.redo.len() == 0,
            !final(self)@.buffer.dirty,
            final(self)@.buffer.version == 0,
            final(self)@.version == version,
            final(self)@.uri == old(self)@.uri,
            final(self)@.path == old(self)@.path,
            final(self)@.language_id == old(self)@.language_id,
            final(self)@.selections == old(self)@.selections,
    {
        self.buffer = Buffer::from_str(text);
        self.version = version;
    }

    /// Apply a list of incremental [`TextEdit`]s.
    ///
    /// LSP specifies that edits must be applied in reverse order when the
    /// ranges do not overlap, to keep earlier offsets stable.  We honour
    /// that by sorting descending before application.
    pub fn apply_edits(&mut self, edits: &[TextEdit], version: i32) -> (r: Result<
        (),
        PositionOutOfRange,
    >)
        ensures
            ({
                let (b, err) = apply_edits_spec(old(self)@.buffer, sort_edits(edits@));
                &&& final(self)@.buffer == b
                &&& match err {
                    None => r is Ok && final(self)@.version == version,
                    Some(e) => r == Err::<(), PositionOutOfRange>(e) && final(self)@.version == old(
                        self,
                    )@.version,
                }
            }),
            final(self)@.uri == old(self)@.uri,
            final(self)@.path == old(self)@.path,
            final(self)@.language_id == old(self)@.language_id,
            final(self)@.selections == old(self)@.selections,
    {
        // Sort edits in reverse document order so earlier byte offsets are not
        // invalidated when we apply later edits first.
        let order = sorted_order(edits);
        let ghost sorted = sort_edits(edits@);
        let ghost goal = apply_edits_spec(self@.buffer, sorted);
        let mut k: usize = 0;
        assert(sorted.skip(0) =~= sorted);
        while k < order.len()
            invariant
                k <= order@.len(),
                forall|j: int| 0 <= j < order@.len() ==> order@[j] < edits@.len(),
                pick(edits@, order@) == sorted,
                sorted == sort_edits(edits@),
                goal == apply_edits_spec(old(self)@.buffer, sorted),
                apply_edits_spec(self@.buffer, sorted.skip(k as int)) == goal,
                self@.uri == old(self)@.uri,
                self@.path == old(self)@.path,
                self@.language_id == old(self)@.language_id,
                self@.version == old(self)@.version,
                self@.selections == old(self)@.selections,
            decreases order@.len() - k,
        {
            let edit = &edits[order[k]];
            proof {
                assert(sorted.skip(k as int)[0] == *edit);
                assert(sorted.skip(k as int).drop_first() =~= sorted.skip(k + 1));
            }
            let ghost pre = self@.buffer;
            let ghost rest = sorted.skip(k as int);
            match self.buffer.apply_text_edit(edit) {
                Ok(()) => {
                    assert(apply_edits_spec(pre, rest) == apply_edits_spec(self@.buffer, rest.drop_first()));
                },
                Err(e) => {
                    assert(apply_edits_spec(pre, rest) == (pre, Some(e)));
                    assert(self@.buffer == pre);
                    assert(goal == (pre, Some(e)));
                    return Err(e);
                },
            }
            k += 1;
        }
        assert(sorted.skip(k as int) =~= Seq::<TextEdit>::empty());
        self.version = version;
        Ok(())
    }

    // --- Language detection -------------------------------------------------

    /// Map a file extension to an LSP language identifier.
    pub fn language_id_for_path(path: &str) -> (r: &'static str)
        ensures
            r@ == language_id_spec(path_extension(path@)),
    {
        proof {
            reveal_strlit("java");
            reveal_strlit("kt");
            reveal_strlit("kts");
            reveal_strlit("gradle");
            reveal_strlit("xml");
            reveal_strlit("json");
            reveal_strlit("md");
            reveal_strlit("toml");
            reveal_strlit("yaml");
            reveal_strlit("yml");
            reveal_strlit("properties");
        }
        match extension_of(path) {
            Some(e) => {
                let e = e.as_str();
                if str_eq(e, "java") {
                    "java"
                } else if str_eq(e, "kt") || str_eq(e, "kts") {
                    "kotlin"
                } else if str_eq(e, "gradle") {
                    "groovy"
                } else if str_eq(e, "xml") {
                    "xml"
                } else if str_eq(e, "json") {
                    "json"
                } else if str_eq(e, "md") {
                    "markdown"
                } else if str_eq(e, "toml") {
                    "toml"
                } else if str_eq(e, "yaml") || str_eq(e, "yml") {
                    "yaml"
                } else if str_eq(e, "properties") {
                    "properties"
                } else {
                    "plaintext"
                }
            },
            None => "plaintext",
        }
    }

    // --- URI helpers --------------------------------------------------------

    /// Convert a filesystem path to a `file://` URI.
    pub fn path_to_uri(path: &str) -> (r: String)
        ensures
            r@ == file_scheme() + path@,
    {
        let mut r = owned("file://");
        proof {
            reveal_strlit("file://");
        }
        push_str(&mut r, path);
        r
    }

    /// Parse a `file://` URI back to a path.  Returns `None` if the
    /// URI does not start with `file://`.
    pub fn uri_to_path(uri: &str) -> (r: Option<String>)
        ensures
            uri@.len() >= 7 && uri@.take(7) == file_scheme() ==> (r matches Some(p) && p@ == uri@.skip(7)),
            !(uri@.len() >= 7 && uri@.take(7) == file_scheme()) ==> r is None,
    {
        let v = chars_of(uri);
        if v.len() >= 7 && v[0] == 'f' && v[1] == 'i' && v[2] == 'l' && v[3] == 'e' && v[4] == ':'
            && v[5] == '/' && v[6] == '/' {
            assert(v@.take(7) =~= file_scheme());
            let p = string_from_range(&v, 7, v.len());
            assert(p@ =~= uri@.skip(7));
            Some(p)
        } else {
            proof {
                if v@.len() >= 7 && v@.take(7) == file_scheme() {
                    assert(v@[0] == v@.take(7)[0]);
                    assert(v@[6] == v@.take(7)[6]);
                    assert(v@[1] == v@.take(7)[1]);
                    assert(v@[2] == v@.take(7)[2]);
                    assert(v@[3] == v@.take(7)[3]);
                    assert(v@[4] == v@.take(7)[4]);
                    assert(v@[5] == v@.take(7)[5]);
                }
            }
            None
        }
    }

    // --- Selection access ---------------------------------------------------

    pub fn selections(&self) -> (r: &SelectionSet)
        ensures
            *r == self@.selections,
    {
        &self.selections
    }

    pub fn selections_mut(&mut self) -> (r: &mut SelectionSet)
        ensures
            *r == old(self)@.selections,
            final(self)@ == (DocumentView { selections: *final(r), ..old(self)@ }),
    {
        &mut self.selections
    }
}

} // verus!
