//! Text buffer backed by a `ropey::Rope` with undo/redo support.
use vstd::prelude::*;
use crate::rope_text::{
    breaks_before, byte_to_char_spec, char_to_byte_spec, line_count_spec, line_start_spec,
    line_text_spec, on_char_boundary, rope_byte_to_char, rope_char_to_byte, rope_char_to_line,
    rope_chars, rope_from_str, rope_insert, rope_len_bytes, rope_len_chars, rope_len_lines,
    rope_line_len_chars, rope_line_string, rope_line_to_char, rope_remove, rope_slice_string,
    rope_to_string, utf8_len, lemma_boundary_roundtrip, lemma_byte_to_char_bound,
    lemma_byte_to_char_mono, lemma_byte_to_char_of_boundary, lemma_encode_utf8_len,
    lemma_utf8_len_append, lemma_utf8_len_take_le, lemma_line_start_le, lemma_line_bounds,
    lemma_line_structure, lemma_breaks_mono, splits_crlf, lemma_breaks_le,
};
use crate::text::chars_of;
use crate::types::{Position, TextEdit};

verus! {

// ---------------------------------------------------------------------------
// EditOp
// ---------------------------------------------------------------------------

/// A single reversible edit operation stored in the undo/redo history.
#[derive(Debug, Clone)]
pub struct EditOp {
    /// Byte offset at which the edit starts.
    pub byte_start: usize,
    /// Byte offset at which the old text ended (exclusive).
    pub byte_end: usize,
    /// The text that was removed (needed for undo).
    pub old_text: String,
    /// The text that was inserted.
    pub new_text: String,
}

/// The mathematical value of an [`EditOp`].
pub struct EditOpView {
    pub byte_start: nat,
    pub byte_end: nat,
    pub old_text: Seq<char>,
    pub new_text: Seq<char>,
}

impl View for EditOp {
    type V = EditOpView;

    open spec fn view(&self) -> EditOpView {
        EditOpView {
            byte_start: self.byte_start as nat,
            byte_end: self.byte_end as nat,
            old_text: self.old_text@,
            new_text: self.new_text@,
        }
    }
}

impl EditOp {
    fn duplicate(&self) -> (r: EditOp)
        ensures
            r@ == self@,
    {
        EditOp {
            byte_start: self.byte_start,
            byte_end: self.byte_end,
            old_text: self.old_text.clone(),
            new_text: self.new_text.clone(),
        }
    }
}

pub open spec fn min_int(a: int, b: int) -> int {
    if a < b {
        a
    } else {
        b
    }
}

/// Char index at which `op` starts in `s` (its byte offset clamped to the text).
pub open spec fn edit_start(s: Seq<char>, op: EditOpView) -> int {
    byte_to_char_spec(s, min_int(op.byte_start as int, utf8_len(s) as int)) as int
}

/// Char index at which the text that `op` removes from `s` ends; a range that
/// ends before it starts removes nothing.
pub open spec fn edit_end(s: Seq<char>, op: EditOpView) -> int {
    let e = byte_to_char_spec(s, min_int(op.byte_end as int, utf8_len(s) as int)) as int;
    if e > edit_start(s, op) {
        e
    } else {
        edit_start(s, op)
    }
}

/// The text after applying `op` to `s`: the chars `edit_start..edit_end` give
/// way to `op.new_text`.
pub open spec fn apply_op_spec(s: Seq<char>, op: EditOpView) -> Seq<char> {
    s.take(edit_start(s, op)) + op.new_text + s.skip(edit_end(s, op))
}

/// The operation that takes back `op`: it removes what `op` inserted and puts
/// back what `op` removed.
pub open spec fn inverse_op(op: EditOpView) -> EditOpView {
    EditOpView {
        byte_start: op.byte_start,
        byte_end: op.byte_start + utf8_len(op.new_text),
        old_text: op.new_text,
        new_text: op.old_text,
    }
}

/// `op` describes an edit of `s` truthfully: it starts on a char boundary and
/// its `old_text` is exactly the text it removes.
pub open spec fn faithful(s: Seq<char>, op: EditOpView) -> bool {
    &&& on_char_boundary(s, op.byte_start as int)
    &&& op.old_text == s.subrange(edit_start(s, op), edit_end(s, op))
}

pub open spec fn next_version(v: u32) -> u32 {
    if v < u32::MAX {
        (v + 1) as u32
    } else {
        0
    }
}

pub open spec fn ops_view(v: Seq<EditOp>) -> Seq<EditOpView> {
    v.map_values(|o: EditOp| o@)
}

proof fn lemma_edit_bounds(s: Seq<char>, op: EditOpView)
    ensures
        0 <= edit_start(s, op) <= edit_end(s, op) <= s.len(),
{
    lemma_byte_to_char_bound(s, min_int(op.byte_start as int, utf8_len(s) as int));
    lemma_byte_to_char_bound(s, min_int(op.byte_end as int, utf8_len(s) as int));
}

/// Undoing an edit restores the text it was applied to, provided the edit
/// started on a char boundary and recorded exactly the text it removed.
pub proof fn lemma_undo_restores(s: Seq<char>, op: EditOpView)
    requires
        faithful(s, op),
    ensures
        apply_op_spec(apply_op_spec(s, op), inverse_op(op)) == s,
{
    let cs = edit_start(s, op);
    let ce = edit_end(s, op);
    lemma_edit_bounds(s, op);
    let k = choose|k: int| 0 <= k <= s.len() && #[trigger] utf8_len(s.take(k)) == op.byte_start;
    lemma_utf8_len_take_le(s, k);
    lemma_byte_to_char_of_boundary(s, k);
    assert(cs == k);
    let t = apply_op_spec(s, op);
    let inv = inverse_op(op);
    let n = op.new_text.len() as int;
    assert(t.take(cs) =~= s.take(cs));
    assert(t.take(cs + n) =~= s.take(cs) + op.new_text);
    lemma_utf8_len_append(s.take(cs), op.new_text);
    lemma_utf8_len_append(s.take(cs) + op.new_text, s.skip(ce));
    assert(t =~= (s.take(cs) + op.new_text) + s.skip(ce));
    lemma_byte_to_char_of_boundary(t, cs);
    lemma_byte_to_char_of_boundary(t, cs + n);
    assert(edit_start(t, inv) == cs);
    assert(edit_end(t, inv) == cs + n);
    assert(t.skip(cs + n) =~= s.skip(ce));
    assert(s =~= s.take(cs) + s.subrange(cs, ce) + s.skip(ce));
}

/// Redoing an undone edit gives the text the edit first produced.
pub proof fn lemma_redo_reapplies(s: Seq<char>, op: EditOpView)
    requires
        faithful(s, op),
    ensures
        apply_op_spec(apply_op_spec(apply_op_spec(s, op), inverse_op(op)), op) == apply_op_spec(
            s,
            op,
        ),
{
    lemma_undo_restores(s, op);
}

// ---------------------------------------------------------------------------
// Errors
// ---------------------------------------------------------------------------

/// A position that names a line or column the buffer does not have.
#[derive(Debug, Clone, Copy, PartialEq, Eq, Structural)]
pub struct PositionOutOfRange {
    pub line: u32,
    pub character: u32,
    pub line_count: usize,
}

// ---------------------------------------------------------------------------
// Buffer
// ---------------------------------------------------------------------------

/// A text buffer backed by a `ropey::Rope` with undo/redo support.
pub struct Buffer {
    rope: ropey::Rope,
    history: Vec<EditOp>,
    redo_stack: Vec<EditOp>,
    dirty: bool,
    version: u32,
}

/// The mathematical value of a [`Buffer`].
pub struct BufferView {
    pub text: Seq<char>,
    pub history: Seq<EditOpView>,
    pub redo: Seq<EditOpView>,
    pub dirty: bool,
    pub version: u32,
}

/// The buffer after recording and applying `op`: the text changes as
/// [`apply_op_spec`] says, `op` joins the history, the redo stack empties, and
/// the buffer becomes dirty with the next version.
pub open spec fn apply_edit_view(b: BufferView, op: EditOpView) -> BufferView {
    BufferView {
        text: apply_op_spec(b.text, op),
        history: b.history.push(op),
        redo: Seq::<EditOpView>::empty(),
        dirty: true,
        version: next_version(b.version),
    }
}

/// The edit that a [`TextEdit`] becomes on text `s`, once both ends of its range
/// are byte offsets `b0` and `b1`: it records the text between them.
pub open spec fn text_edit_op(s: Seq<char>, b0: int, b1: int, new_text: Seq<char>) -> EditOpView {
    EditOpView {
        byte_start: b0 as nat,
        byte_end: b1 as nat,
        old_text: slice_bytes_spec(s, b0, b1),
        new_text,
    }
}

/// The buffer after applying a [`TextEdit`], or the error for the first end of
/// its range that names a position the buffer does not have.
pub open spec fn text_edit_result(b: BufferView, e: TextEdit) -> Result<BufferView, PositionOutOfRange> {
    match position_to_offset_spec(b.text, e.range.start) {
        Err(err) => Err(err),
        Ok(b0) => match position_to_offset_spec(b.text, e.range.end) {
            Err(err) => Err(err),
            Ok(b1) => Ok(apply_edit_view(b, text_edit_op(b.text, b0, b1, e.new_text@))),
        },
    }
}

impl View for Buffer {
    type V = BufferView;

    closed spec fn view(&self) -> BufferView {
        BufferView {
            text: rope_chars(self.rope),
            history: ops_view(self.history@),
            redo: ops_view(self.redo_stack@),
            dirty: self.dirty,
            version: self.version,
        }
    }
}

/// Applies `op` to the rope, clamping its byte range to the text.
fn apply_to_rope(rope: &mut ropey::Rope, op: &EditOp)
    ensures
        rope_chars(*final(rope)) == apply_op_spec(rope_chars(*old(rope)), op@),
{
    let ghost s = rope_chars(*rope);
    proof {
        lemma_edit_bounds(s, op@);
    }
    let len = rope_len_bytes(rope);
    let b_start = if op.byte_start < len {
        op.byte_start
    } else {
        len
    };
    let b_end = if op.byte_end < len {
        op.byte_end
    } else {
        len
    };
    let char_start = rope_byte_to_char(rope, b_start);
    let char_end = rope_byte_to_char(rope, b_end);
    if char_end > char_start {
        rope_remove(rope, char_start, char_end);
    }
    assert(rope_chars(*rope) =~= s.take(char_start as int) + s.skip(edit_end(s, op@)));
    if !op.new_text.as_str().is_empty() {
        rope_insert(rope, char_start, op.new_text.as_str());
    }
    assert(rope_chars(*rope) =~= apply_op_spec(s, op@));
}

impl Buffer {
    // --- Constructors -------------------------------------------------------

    /// Create a buffer from an in-memory string.
    #[allow(clippy::should_implement_trait)]
    pub fn from_str(s: &str) -> (b: Self)
        ensures
            b@.text == s@,
            b@.history == Seq::<EditOpView>::empty(),
            b@.redo == Seq::<EditOpView>::empty(),
            !b@.dirty,
            b@.version == 0,
    {
        let b = Buffer {
            rope: rope_from_str(s),
            history: Vec::new(),
            redo_stack: Vec::new(),
            dirty: false,
            version: 0,
        };
        assert(b@.history =~= Seq::<EditOpView>::empty());
        assert(b@.redo =~= Seq::<EditOpView>::empty());
        b
    }

    // --- Core edit ----------------------------------------------------------

    /// Apply an edit operation, record it in history, and bump the version.
    ///
    /// Removes the bytes `[byte_start, byte_end)` (i.e. `op.old_text`) and
    /// inserts `op.new_text` at the same position.
    pub fn apply_edit(&mut self, op: EditOp)
        ensures
            final(self)@ == apply_edit_view(old(self)@, op@),
    {
        apply_to_rope(&mut self.rope, &op);
        let ghost h = self.history@;
        self.history.push(op);
        self.redo_stack.clear();
        self.version = self.version.wrapping_add(1);
        self.dirty = true;
        assert(ops_view(self.history@) =~= ops_view(h).push(op@));
        assert(ops_view(self.redo_stack@) =~= Seq::<EditOpView>::empty());
    }

    /// Convert a [`TextEdit`] (using LSP-style `Position`) into an [`EditOp`]
    /// and apply it.
    pub fn apply_text_edit(&mut self, edit: &TextEdit) -> (r: Result<(), PositionOutOfRange>)
        ensures
            match text_edit_result(old(self)@, *edit) {
                Ok(b) => r is Ok && final(self)@ == b && faithful(
                    old(self)@.text,
                    final(self)@.history.last(),
                ),
                Err(e) => r == Err::<(), PositionOutOfRange>(e) && final(self)@ == old(self)@,
            },
    {
        let ghost s = self@.text;
        let byte_start = match self.position_to_offset(edit.range.start) {
            Ok(b) => b,
            Err(e) => return Err(e),
        };
        let byte_end = match self.position_to_offset(edit.range.end) {
            Ok(b) => b,
            Err(e) => return Err(e),
        };
        let old_text = self.slice_bytes(byte_start, byte_end);
        let op = EditOp { byte_start, byte_end, old_text, new_text: edit.new_text.clone() };
        proof {
            lemma_offsets_faithful(s, byte_start as int, byte_end as int, op@);
        }
        self.apply_edit(op);
        Ok(())
    }

    // --- Undo / redo --------------------------------------------------------

    /// Undo the most recent edit and return the inverted operation, or `None`
    /// when the history is empty.
    pub fn undo(&mut self) -> (r: Option<EditOp>)
        requires
            old(self)@.history.len() > 0 ==> old(self)@.history.last().byte_start + utf8_len(
                old(self)@.history.last().new_text,
            ) <= usize::MAX,
        ensures
            old(self)@.history.len() == 0 ==> r is None && final(self)@ == old(self)@,
            old(self)@.history.len() > 0 ==> {
                let op = old(self)@.history.last();
                &&& r is Some
                &&& r->0@ == inverse_op(op)
                &&& final(self)@.text == apply_op_spec(old(self)@.text, inverse_op(op))
                &&& final(self)@.history == old(self)@.history.drop_last()
                &&& final(self)@.redo == old(self)@.redo.push(op)
                &&& final(self)@.dirty
                &&& final(self)@.version == next_version(old(self)@.version)
            },
    {
        let ghost h = self.history@;
        let ghost rs = self.redo_stack@;
        let op = match self.history.pop() {
            Some(op) => op,
            None => {
                return None;
            },
        };
        assert(ops_view(self.history@) =~= ops_view(h).drop_last());
        proof {
            lemma_encode_utf8_len(op.new_text@);
        }
        let new_text_len = op.new_text.as_str().len();
        let inverse = EditOp {
            byte_start: op.byte_start,
            byte_end: op.byte_start + new_text_len,
            old_text: op.new_text.clone(),
            new_text: op.old_text.clone(),
        };
        assert(inverse@ == inverse_op(op@));
        apply_to_rope(&mut self.rope, &inverse);
        let ghost opv = op@;
        self.redo_stack.push(op);
        self.version = self.version.wrapping_add(1);
        self.dirty = true;
        assert(ops_view(self.redo_stack@) =~= ops_view(rs).push(opv));
        Some(inverse)
    }

    /// Redo the most recently undone edit and return it, or `None` when the
    /// redo stack is empty.
    pub fn redo(&mut self) -> (r: Option<EditOp>)
        ensures
            old(self)@.redo.len() == 0 ==> r is None && final(self)@ == old(self)@,
            old(self)@.redo.len() > 0 ==> {
                let op = old(self)@.redo.last();
                &&& r is Some
                &&& r->0@ == op
                &&& final(self)@.text == apply_op_spec(old(self)@.text, op)
                &&& final(self)@.history == old(self)@.history.push(op)
                &&& final(self)@.redo == old(self)@.redo.drop_last()
                &&& final(self)@.dirty
                &&& final(self)@.version == next_version(old(self)@.version)
            },
    {
        let ghost h = self.history@;
        let ghost rs = self.redo_stack@;
        let op = match self.redo_stack.pop() {
            Some(op) => op,
            None => {
                return None;
            },
        };
        assert(ops_view(self.redo_stack@) =~= ops_view(rs).drop_last());
        apply_to_rope(&mut self.rope, &op);
        let copy = op.duplicate();
        self.history.push(copy);
        self.version = self.version.wrapping_add(1);
        self.dirty = true;
        assert(ops_view(self.history@) =~= ops_view(h).push(op@));
        Some(op)
    }

    // --- State queries ------------------------------------------------------

    /// Returns `true` when the buffer has unsaved changes.
    pub fn is_dirty(&self) -> (r: bool)
        ensures
            r == self@.dirty,
    {
        self.dirty
    }

    /// Mark the buffer as saved (clears the dirty flag).
    pub fn mark_saved(&mut self)
        ensures
            final(self)@ == (BufferView { dirty: false, ..old(self)@ }),
    {
        self.dirty = false;
    }

    /// Monotonically increasing edit version counter.
    pub fn version(&self) -> (r: u32)
        ensures
            r == self@.version,
    {
        self.version
    }

    /// Number of lines in the buffer.
    pub fn line_count(&self) -> (r: usize)
        ensures
            r == line_count_spec(self@.text),
    {
        rope_len_lines(&self.rope)
    }

    /// Length of the buffer in bytes (UTF-8).
    pub fn len_bytes(&self) -> (r: usize)
        ensures
            r == utf8_len(self@.text),
    {
        rope_len_bytes(&self.rope)
    }

    /// Length of the buffer in Unicode scalar values.
    pub fn len_chars(&self) -> (r: usize)
        ensures
            r == self@.text.len(),
    {
        rope_len_chars(&self.rope)
    }

    /// Collect the entire buffer into a `String`.
    #[allow(clippy::inherent_to_string)]
    pub fn to_string(&self) -> (r: String)
        ensures
            r@ == self@.text,
    {
        rope_to_string(&self.rope)
    }

    /// Returns the text in the byte range `[start, end)` as a `String`.
    ///
    /// Clamps `end` to the buffer length and handles the case where `start >=
    /// end` gracefully.
    pub fn slice_bytes(&self, start: usize, end: usize) -> (r: String)
        ensures
            r@ == slice_bytes_spec(self@.text, start as int, end as int),
    {
        let ghost s = self@.text;
        let len = rope_len_bytes(&self.rope);
        let start = if start < len {
            start
        } else {
            len
        };
        let end = if end < len {
            end
        } else {
            len
        };
        if start >= end {
            return String::new();
        }
        let char_start = rope_byte_to_char(&self.rope, start);
        let char_end = rope_byte_to_char(&self.rope, end);
        proof {
            lemma_byte_to_char_mono(s, start as int, end as int);
            lemma_byte_to_char_bound(s, end as int);
        }
        rope_slice_string(&self.rope, char_start, char_end)
    }

    /// Returns the text of line `line_idx` (zero-based), including its line
    /// ending, or `None` when the index is out of range.
    pub fn line(&self, line_idx: usize) -> (r: Option<String>)
        ensures
            line_idx >= line_count_spec(self@.text) ==> r is None,
            line_idx < line_count_spec(self@.text) ==> r is Some && r->0@ == line_text_spec(
                self@.text,
                line_idx as int,
            ),
    {
        if line_idx >= rope_len_lines(&self.rope) {
            return None;
        }
        Some(rope_line_string(&self.rope, line_idx))
    }

    // --- Coordinate conversions ---------------------------------------------

    /// Convert a byte offset to an LSP [`Position`].
    ///
    /// If the offset is past the end of the buffer it is clamped.
    pub fn offset_to_position(&self, byte_offset: usize) -> (p: Position)
        ensures
            p == offset_to_position_spec(self@.text, byte_offset as int),
    {
        let ghost s = self@.text;
        let len = rope_len_bytes(&self.rope);
        let byte_offset = if byte_offset < len {
            byte_offset
        } else {
            len
        };
        let char_offset = rope_byte_to_char(&self.rope, byte_offset);
        proof {
            lemma_byte_to_char_bound(s, byte_offset as int);
        }
        let line = rope_char_to_line(&self.rope, char_offset);
        proof {
            lemma_line_start_le(s, char_offset as int);
        }
        let line_start_char = rope_line_to_char(&self.rope, line);
        let character = (char_offset - line_start_char) as u32;
        Position { line: line as u32, character }
    }

    /// Convert an LSP [`Position`] to a byte offset.
    ///
    /// Returns an error when the position references a line or character that
    /// does not exist.
    pub fn position_to_offset(&self, pos: Position) -> (r: Result<usize, PositionOutOfRange>)
        ensures
            match r {
                Ok(b) => position_to_offset_spec(self@.text, pos) == Ok::<
                    int,
                    PositionOutOfRange,
                >(b as int) && on_char_boundary(self@.text, b as int),
                Err(e) => position_to_offset_spec(self@.text, pos) == Err::<
                    int,
                    PositionOutOfRange,
                >(e),
            },
    {
        let ghost s = self@.text;
        let line = pos.line as usize;
        let col = pos.character as usize;

        let line_count = rope_len_lines(&self.rope);
        if line >= line_count {
            // Allow placing the cursor at the very end of the last line when
            // line == len_lines() and the rope ends with a newline.
            if line == line_count && col == 0 {
                let n = rope_len_bytes(&self.rope);
                assert(s.take(s.len() as int) =~= s);
                assert(utf8_len(s.take(s.len() as int)) == n);
                return Ok(n);
            }
            return Err(PositionOutOfRange { line: pos.line, character: pos.character, line_count });
        }
        proof {
            lemma_line_bounds(s, line as int);
        }
        // Exclude the trailing newline from the maximum character index so
        // we do not produce a byte offset inside the newline sequence.
        let raw = rope_line_len_chars(&self.rope, line);
        let text = rope_line_string(&self.rope, line);
        let chars = chars_of(text.as_str());
        let n = chars.len();
        let line_len_chars = if n >= 2 && chars[n - 2] == '\r' && chars[n - 1] == '\n' {
            raw.saturating_sub(2)
        } else if n >= 1 && (chars[n - 1] == '\n' || chars[n - 1] == '\r') {
            raw.saturating_sub(1)
        } else {
            raw
        };
        assert(chars@ == line_text_spec(s, line as int));
        assert(line_len_chars == content_len_spec(line_text_spec(s, line as int)));
        assert(line_len_chars <= raw);
        if col > line_len_chars {
            return Err(PositionOutOfRange { line: pos.line, character: pos.character, line_count });
        }
        let line_start_char = rope_line_to_char(&self.rope, line);
        let total_chars = rope_len_chars(&self.rope);
        assert(line_start_char + col <= total_chars);
        let char_offset = line_start_char + col;
        let b = rope_char_to_byte(&self.rope, char_offset);
        assert(0 <= char_offset <= s.len() && utf8_len(s.take(char_offset as int)) == b);
        Ok(b)
    }

    /// Convert a char offset to a byte offset.
    pub fn char_to_byte(&self, ch: usize) -> (r: usize)
        ensures
            r == char_to_byte_spec(self@.text, min_int(ch as int, self@.text.len() as int)),
    {
        let len = rope_len_chars(&self.rope);
        let ch = if ch < len {
            ch
        } else {
            len
        };
        rope_char_to_byte(&self.rope, ch)
    }

    /// Convert a byte offset to a char offset.
    pub fn byte_to_char(&self, byte: usize) -> (r: usize)
        ensures
            r == byte_to_char_spec(self@.text, min_int(byte as int, utf8_len(self@.text) as int)),
    {
        let len = rope_len_bytes(&self.rope);
        let byte = if byte < len {
            byte
        } else {
            len
        };
        rope_byte_to_char(&self.rope, byte)
    }

    /// Return a reference to the underlying rope.
    pub fn rope(&self) -> (r: &ropey::Rope)
        ensures
            rope_chars(*r) == self@.text,
    {
        &self.rope
    }
}

/// The text of the byte range `[start, end)` of `s`, both ends clamped to the
/// text; empty when the clamped range is empty.
pub open spec fn slice_bytes_spec(s: Seq<char>, start: int, end: int) -> Seq<char> {
    let n = utf8_len(s) as int;
    let a = min_int(start, n);
    let b = min_int(end, n);
    if a >= b {
        Seq::<char>::empty()
    } else {
        s.subrange(byte_to_char_spec(s, a) as int, byte_to_char_spec(s, b) as int)
    }
}

/// The chars of a line before its line ending: a trailing CRLF, LF or CR is
/// left out.
pub open spec fn content_len_spec(line: Seq<char>) -> int {
    let n = line.len() as int;
    if n >= 2 && line[n - 2] == '\r' && line[n - 1] == '\n' {
        n - 2
    } else if n >= 1 && (line[n - 1] == '\n' || line[n - 1] == '\r') {
        n - 1
    } else {
        n
    }
}

/// The byte offset of position `p`: a column within the line's text (line
/// ending excluded, the end of the text included) gives the byte of that
/// char; the line one past the last one is accepted with column 0 and gives
/// the end of the text; any other line or column is out of range.
pub open spec fn position_to_offset_spec(s: Seq<char>, p: Position) -> Result<
    int,
    PositionOutOfRange,
> {
    let count = line_count_spec(s) as int;
    let line = p.line as int;
    let col = p.character as int;
    if line >= count {
        if line == count && col == 0 {
            Ok(utf8_len(s) as int)
        } else {
            Err(PositionOutOfRange { line: p.line, character: p.character, line_count: count as usize })
        }
    } else {
        let llen = content_len_spec(line_text_spec(s, line));
        if col > llen {
            Err(PositionOutOfRange { line: p.line, character: p.character, line_count: count as usize })
        } else {
            Ok(char_to_byte_spec(s, line_start_spec(s, line) + col) as int)
        }
    }
}

/// The position of byte offset `b` (clamped to the text): the line that holds
/// its char and the char's column in that line.
pub open spec fn offset_to_position_spec(s: Seq<char>, b: int) -> Position {
    let c = byte_to_char_spec(s, min_int(b, utf8_len(s) as int)) as int;
    let l = breaks_before(s, c) as int;
    Position { line: l as u32, character: (c - line_start_spec(s, l)) as u32 }
}

/// Converting a byte offset to a position and back gives the offset again, for
/// an offset on a char boundary that does not fall inside a CRLF pair, in a
/// text whose line and column numbers fit in `u32`.
pub proof fn lemma_position_roundtrip(s: Seq<char>, b: int)
    requires
        on_char_boundary(s, b),
        !splits_crlf(s, byte_to_char_spec(s, b) as int),
        s.len() <= u32::MAX,
    ensures
        position_to_offset_spec(s, offset_to_position_spec(s, b)) == Ok::<int, PositionOutOfRange>(
            b,
        ),
{
    let k = choose|k: int| 0 <= k <= s.len() && #[trigger] utf8_len(s.take(k)) == b;
    lemma_utf8_len_take_le(s, k);
    lemma_byte_to_char_of_boundary(s, k);
    let c = k;
    assert(byte_to_char_spec(s, min_int(b, utf8_len(s) as int)) == c);
    let l = breaks_before(s, c) as int;
    lemma_line_start_le(s, c);
    lemma_breaks_mono(s, c, s.len() as int);
    lemma_line_structure(s, l);
    lemma_line_bounds(s, l);
    let ls = line_start_spec(s, l);
    let e = line_start_spec(s, l + 1);
    if l + 1 < line_count_spec(s) && c >= e {
        lemma_breaks_mono(s, e, c);
    }
    let t = line_text_spec(s, l);
    assert(c - ls <= content_len_spec(t));
    lemma_breaks_le(s, c);
    let p = offset_to_position_spec(s, b);
    assert(p.line == l && p.character == c - ls);
}

/// An edit built from two offsets on char boundaries, with the text between
/// them as its `old_text`, is faithful.
proof fn lemma_offsets_faithful(s: Seq<char>, b0: int, b1: int, op: EditOpView)
    requires
        on_char_boundary(s, b0),
        0 <= b1,
        op.byte_start == b0,
        op.byte_end == b1,
        op.old_text == slice_bytes_spec(s, b0, b1),
    ensures
        faithful(s, op),
{
    let k = choose|k: int| 0 <= k <= s.len() && #[trigger] utf8_len(s.take(k)) == b0;
    lemma_utf8_len_take_le(s, k);
    lemma_edit_bounds(s, op);
    let n = utf8_len(s) as int;
    if b0 >= min_int(b1, n) {
        lemma_byte_to_char_mono(s, min_int(b1, n), b0);
        assert(s.subrange(edit_start(s, op), edit_end(s, op)) =~= Seq::<char>::empty());
    } else {
        lemma_byte_to_char_mono(s, b0, min_int(b1, n));
    }
}

} // verus!
