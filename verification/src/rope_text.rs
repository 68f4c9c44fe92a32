//! The text model of a `ropey::Rope`: its chars, their UTF-8 byte offsets and
//! its lines, with the rope operations the editor buffer uses.
use vstd::prelude::*;

verus! {

// ---------------------------------------------------------------------------
// UTF-8 widths and byte offsets
// ---------------------------------------------------------------------------

/// Number of bytes of the UTF-8 encoding of `c`.
pub open spec fn char_width(c: char) -> nat {
    if (c as u32) <= 0x7F {
        1
    } else if (c as u32) <= 0x7FF {
        2
    } else if (c as u32) <= 0xFFFF {
        3
    } else {
        4
    }
}

/// Number of bytes of the UTF-8 encoding of `s`.
pub open spec fn utf8_len(s: Seq<char>) -> nat
    decreases s.len(),
{
    if s.len() == 0 {
        0
    } else {
        char_width(s[0]) + utf8_len(s.drop_first())
    }
}

/// Index of the char that contains byte `b` of the encoding of `s`; a byte
/// offset at (or past) the end gives `s.len()`.
pub open spec fn byte_to_char_spec(s: Seq<char>, b: int) -> nat
    decreases s.len(),
{
    if s.len() == 0 || b < char_width(s[0]) {
        0
    } else {
        1 + byte_to_char_spec(s.drop_first(), b - char_width(s[0]))
    }
}

/// Byte offset of char index `c` in the encoding of `s`.
pub open spec fn char_to_byte_spec(s: Seq<char>, c: int) -> nat {
    utf8_len(s.take(c))
}

/// Byte offset `b` starts a char of `s` (or is the end of `s`).
pub open spec fn on_char_boundary(s: Seq<char>, b: int) -> bool {
    exists|k: int| 0 <= k <= s.len() && #[trigger] utf8_len(s.take(k)) == b
}

pub proof fn lemma_utf8_len_append(a: Seq<char>, b: Seq<char>)
    ensures
        utf8_len(a + b) == utf8_len(a) + utf8_len(b),
    decreases a.len(),
{
    if a.len() > 0 {
        assert((a + b).drop_first() =~= a.drop_first() + b);
        lemma_utf8_len_append(a.drop_first(), b);
    } else {
        assert(a + b =~= b);
    }
}

pub proof fn lemma_utf8_len_take_mono(s: Seq<char>, i: int, j: int)
    requires
        0 <= i <= j <= s.len(),
    ensures
        utf8_len(s.take(i)) <= utf8_len(s.take(j)),
{
    assert(s.take(j) =~= s.take(i) + s.subrange(i, j));
    lemma_utf8_len_append(s.take(i), s.subrange(i, j));
}

pub proof fn lemma_utf8_len_take_le(s: Seq<char>, i: int)
    requires
        0 <= i <= s.len(),
    ensures
        utf8_len(s.take(i)) <= utf8_len(s),
{
    assert(s.take(s.len() as int) =~= s);
    lemma_utf8_len_take_mono(s, i, s.len() as int);
}

/// The byte offset of a char index maps back to that char index.
pub proof fn lemma_byte_to_char_of_boundary(s: Seq<char>, k: int)
    requires
        0 <= k <= s.len(),
    ensures
        byte_to_char_spec(s, utf8_len(s.take(k)) as int) == k,
    decreases s.len(),
{
    if k == 0 {
        assert(s.take(0) =~= Seq::<char>::empty());
    } else {
        let t = s.drop_first();
        assert(s.take(k).drop_first() =~= t.take(k - 1));
        lemma_byte_to_char_of_boundary(t, k - 1);
    }
}

pub proof fn lemma_byte_to_char_bound(s: Seq<char>, b: int)
    ensures
        byte_to_char_spec(s, b) <= s.len(),
    decreases s.len(),
{
    if s.len() > 0 && b >= char_width(s[0]) {
        lemma_byte_to_char_bound(s.drop_first(), b - char_width(s[0]));
    }
}

pub proof fn lemma_byte_to_char_mono(s: Seq<char>, a: int, b: int)
    requires
        a <= b,
    ensures
        byte_to_char_spec(s, a) <= byte_to_char_spec(s, b),
    decreases s.len(),
{
    if s.len() > 0 && a >= char_width(s[0]) {
        lemma_byte_to_char_mono(s.drop_first(), a - char_width(s[0]), b - char_width(s[0]));
    }
}

/// The char that holds byte `b` starts at or before `b`.
pub proof fn lemma_byte_to_char_floor(s: Seq<char>, b: int)
    requires
        0 <= b,
    ensures
        utf8_len(s.take(byte_to_char_spec(s, b) as int)) <= b,
    decreases s.len(),
{
    let k = byte_to_char_spec(s, b);
    if s.len() == 0 || b < char_width(s[0]) {
        assert(s.take(0) =~= Seq::<char>::empty());
    } else {
        let t = s.drop_first();
        lemma_byte_to_char_floor(t, b - char_width(s[0]));
        lemma_byte_to_char_bound(t, b - char_width(s[0]));
        assert(s.take(k as int).drop_first() =~= t.take(k - 1));
    }
}

/// On a char boundary, `byte_to_char` and `char_to_byte` are inverse.
pub proof fn lemma_boundary_roundtrip(s: Seq<char>, b: int)
    requires
        on_char_boundary(s, b),
    ensures
        utf8_len(s.take(byte_to_char_spec(s, b) as int)) == b,
{
    let k = choose|k: int| 0 <= k <= s.len() && #[trigger] utf8_len(s.take(k)) == b;
    lemma_byte_to_char_of_boundary(s, k);
}

proof fn lemma_encode_scalar_len(c: char)
    ensures
        vstd::utf8::encode_scalar(c as u32).len() == char_width(c),
{
    vstd::utf8::char_is_scalar(c);
}

/// The encoding that `str::len` counts has `utf8_len` bytes.
pub proof fn lemma_encode_utf8_len(s: Seq<char>)
    ensures
        vstd::utf8::encode_utf8(s).len() == utf8_len(s),
    decreases s.len(),
{
    if s.len() > 0 {
        lemma_encode_scalar_len(s[0]);
        lemma_encode_utf8_len(s.drop_first());
    }
}

// ---------------------------------------------------------------------------
// Lines
// ---------------------------------------------------------------------------

/// The chars a rope treats as line breaks: LF, VT, FF, CR, NEL, LS and PS
/// (a CR directly followed by LF forms one break).
pub open spec fn is_line_break_char(c: char) -> bool {
    c == '\n' || c == '\u{0B}' || c == '\u{0C}' || c == '\r' || c == '\u{85}' || c == '\u{2028}'
        || c == '\u{2029}'
}

/// Char position `i` (between char `i - 1` and char `i`) directly follows a
/// complete line break.
pub open spec fn ends_line_break(s: Seq<char>, i: int) -> bool {
    &&& 1 <= i <= s.len()
    &&& is_line_break_char(s[i - 1])
    &&& !(s[i - 1] == '\r' && i < s.len() && s[i] == '\n')
}

/// Number of line breaks that end at or before char position `c`.
pub open spec fn breaks_before(s: Seq<char>, c: int) -> nat
    decreases c,
{
    if c <= 0 {
        0
    } else {
        breaks_before(s, c - 1) + if ends_line_break(s, c) {
            1nat
        } else {
            0nat
        }
    }
}

/// Number of lines: one more than the number of line breaks.
pub open spec fn line_count_spec(s: Seq<char>) -> nat {
    breaks_before(s, s.len() as int) + 1
}

/// Char index at which line `l` starts; `line_count_spec(s)` (one past the last
/// line) maps to the end of the text.
pub open spec fn line_start_spec(s: Seq<char>, l: int) -> int {
    if l <= 0 {
        0
    } else if l >= line_count_spec(s) {
        s.len() as int
    } else {
        choose|c: int| 1 <= c <= s.len() && ends_line_break(s, c) && breaks_before(s, c) == l
    }
}

/// The text of line `l`, line break included.
pub open spec fn line_text_spec(s: Seq<char>, l: int) -> Seq<char> {
    s.subrange(line_start_spec(s, l), line_start_spec(s, l + 1))
}

pub proof fn lemma_breaks_mono(s: Seq<char>, a: int, b: int)
    requires
        a <= b,
    ensures
        breaks_before(s, a) <= breaks_before(s, b),
    decreases b - a,
{
    if a < b {
        lemma_breaks_mono(s, a, b - 1);
    }
}

pub proof fn lemma_breaks_le(s: Seq<char>, c: int)
    ensures
        c >= 0 ==> breaks_before(s, c) <= c,
    decreases c,
{
    if c > 0 {
        lemma_breaks_le(s, c - 1);
    }
}

/// A position where a break ends has one more break before it than the
/// position just before it.
proof fn lemma_breaks_step(s: Seq<char>, c: int)
    requires
        1 <= c,
    ensures
        breaks_before(s, c) == breaks_before(s, c - 1) + if ends_line_break(s, c) {
            1nat
        } else {
            0nat
        },
{
}

/// Every count of breaks up to the total is reached exactly where a break ends.
proof fn lemma_step_exists(s: Seq<char>, l: int, c: int)
    requires
        0 <= c <= s.len(),
        1 <= l <= breaks_before(s, c),
    ensures
        exists|w: int| 1 <= w <= c && ends_line_break(s, w) && #[trigger] breaks_before(s, w) == l,
    decreases c,
{
    assert(breaks_before(s, 0) == 0);
    if breaks_before(s, c - 1) >= l {
        lemma_step_exists(s, l, c - 1);
    } else {
        lemma_breaks_step(s, c);
        assert(ends_line_break(s, c) && breaks_before(s, c) == l);
    }
}

/// Line starts are ordered and lie within the text.
pub proof fn lemma_line_bounds(s: Seq<char>, l: int)
    requires
        0 <= l < line_count_spec(s),
    ensures
        0 <= line_start_spec(s, l) <= line_start_spec(s, l + 1) <= s.len(),
        line_text_spec(s, l).len() == line_start_spec(s, l + 1) - line_start_spec(s, l),
{
    if l >= 1 {
        lemma_step_exists(s, l, s.len() as int);
    }
    if l + 1 < line_count_spec(s) {
        lemma_step_exists(s, l + 1, s.len() as int);
        if l >= 1 {
            let w = line_start_spec(s, l);
            let w2 = line_start_spec(s, l + 1);
            if w2 <= w {
                lemma_breaks_mono(s, w2, w);
            }
        }
    }
}

/// The line that holds char position `c` starts at or before `c`.
pub proof fn lemma_line_start_le(s: Seq<char>, c: int)
    requires
        0 <= c <= s.len(),
    ensures
        0 <= line_start_spec(s, breaks_before(s, c) as int) <= c,
        breaks_before(s, c) < line_count_spec(s),
{
    let l = breaks_before(s, c) as int;
    lemma_breaks_mono(s, c, s.len() as int);
    if l >= 1 {
        lemma_step_exists(s, l, c);
        let w = choose|w: int| 1 <= w <= s.len() && ends_line_break(s, w) && breaks_before(s, w) == l;
        if w > c {
            lemma_breaks_mono(s, c, w - 1);
            lemma_breaks_step(s, w);
        }
    }
}

/// Char position `c` falls between the CR and the LF of a CRLF pair.
pub open spec fn splits_crlf(s: Seq<char>, c: int) -> bool {
    1 <= c < s.len() && s[c - 1] == '\r' && s[c] == '\n'
}

/// Line `l` starts where its `l` breaks have been seen; the next line starts
/// after a break, or at the end of the text when `l` is the last line, whose
/// text then ends in no line-break char.
pub proof fn lemma_line_structure(s: Seq<char>, l: int)
    requires
        0 <= l < line_count_spec(s),
    ensures
        breaks_before(s, line_start_spec(s, l)) == l,
        l + 1 < line_count_spec(s) ==> ends_line_break(s, line_start_spec(s, l + 1))
            && breaks_before(s, line_start_spec(s, l + 1)) == l + 1,
        l + 1 == line_count_spec(s) ==> line_start_spec(s, l + 1) == s.len() && (s.len()
            > line_start_spec(s, l) ==> !is_line_break_char(s[s.len() - 1])),
{
    lemma_line_bounds(s, l);
    if l >= 1 {
        lemma_step_exists(s, l, s.len() as int);
    }
    if l + 1 < line_count_spec(s) {
        lemma_step_exists(s, l + 1, s.len() as int);
    }
    if l + 1 == line_count_spec(s) && s.len() > line_start_spec(s, l) && is_line_break_char(
        s[s.len() - 1],
    ) {
        let n = s.len() as int;
        lemma_breaks_step(s, n);
        lemma_breaks_mono(s, line_start_spec(s, l), n - 1);
    }
}

// ---------------------------------------------------------------------------
// The rope
// ---------------------------------------------------------------------------

#[verifier::external_type_specification]
#[verifier::external_body]
pub struct ExRope(ropey::Rope);

/// The chars a `Rope` holds, in order.
pub uninterp spec fn rope_chars(r: ropey::Rope) -> Seq<char>;

/// `Rope::from_str`: a rope holding the chars of `s`.
#[verifier::external_body]
pub(crate) fn rope_from_str(s: &str) -> (r: ropey::Rope)
    ensures
        rope_chars(r) == s@,
{
    ropey::Rope::from_str(s)
}

/// `Rope::len_bytes`: the UTF-8 length of the text.
#[verifier::external_body]
pub(crate) fn rope_len_bytes(r: &ropey::Rope) -> (n: usize)
    ensures
        n == utf8_len(rope_chars(*r)),
{
    r.len_bytes()
}

/// `Rope::len_chars`: the number of chars.
#[verifier::external_body]
pub(crate) fn rope_len_chars(r: &ropey::Rope) -> (n: usize)
    ensures
        n == rope_chars(*r).len(),
{
    r.len_chars()
}

/// `Rope::len_lines`: the number of line breaks plus one.
#[verifier::external_body]
pub(crate) fn rope_len_lines(r: &ropey::Rope) -> (n: usize)
    ensures
        n == line_count_spec(rope_chars(*r)),
{
    r.len_lines()
}

/// `Rope::byte_to_char`: the index of the char holding byte `b` (it panics past
/// the end, which `requires` rules out).
#[verifier::external_body]
pub(crate) fn rope_byte_to_char(r: &ropey::Rope, b: usize) -> (c: usize)
    requires
        b <= utf8_len(rope_chars(*r)),
    ensures
        c == byte_to_char_spec(rope_chars(*r), b as int),
{
    r.byte_to_char(b)
}

/// `Rope::char_to_byte`: the byte offset of char index `c` (it panics past the
/// end, which `requires` rules out).
#[verifier::external_body]
pub(crate) fn rope_char_to_byte(r: &ropey::Rope, c: usize) -> (b: usize)
    requires
        c <= rope_chars(*r).len(),
    ensures
        b == char_to_byte_spec(rope_chars(*r), c as int),
{
    r.char_to_byte(c)
}

/// `Rope::char_to_line`: the number of line breaks before char index `c` (it
/// panics past the end, which `requires` rules out).
#[verifier::external_body]
pub(crate) fn rope_char_to_line(r: &ropey::Rope, c: usize) -> (l: usize)
    requires
        c <= rope_chars(*r).len(),
    ensures
        l == breaks_before(rope_chars(*r), c as int),
{
    r.char_to_line(c)
}

/// `Rope::line_to_char`: the char index where line `l` starts (it panics past
/// one after the last line, which `requires` rules out).
#[verifier::external_body]
pub(crate) fn rope_line_to_char(r: &ropey::Rope, l: usize) -> (c: usize)
    requires
        l <= line_count_spec(rope_chars(*r)),
    ensures
        c == line_start_spec(rope_chars(*r), l as int),
{
    r.line_to_char(l)
}

/// `Rope::remove` of the char range `start..end` (it panics on a reversed or
/// out-of-bounds range, which `requires` rules out).
#[verifier::external_body]
pub(crate) fn rope_remove(r: &mut ropey::Rope, start: usize, end: usize)
    requires
        start <= end <= rope_chars(*old(r)).len(),
    ensures
        rope_chars(*final(r)) == rope_chars(*old(r)).take(start as int) + rope_chars(
            *old(r),
        ).skip(end as int),
{
    r.remove(start..end)
}

/// `Rope::insert` of `text` at char index `at` (it panics past the end, which
/// `requires` rules out).
#[verifier::external_body]
pub(crate) fn rope_insert(r: &mut ropey::Rope, at: usize, text: &str)
    requires
        at <= rope_chars(*old(r)).len(),
    ensures
        rope_chars(*final(r)) == rope_chars(*old(r)).take(at as int) + text@ + rope_chars(
            *old(r),
        ).skip(at as int),
{
    r.insert(at, text)
}

/// `Rope::slice` of the char range `start..end`, collected into a `String`.
#[verifier::external_body]
pub(crate) fn rope_slice_string(r: &ropey::Rope, start: usize, end: usize) -> (s: String)
    requires
        start <= end <= rope_chars(*r).len(),
    ensures
        s@ == rope_chars(*r).subrange(start as int, end as int),
{
    r.slice(start..end).to_string()
}

/// The whole text of a rope as a `String`.
#[verifier::external_body]
pub(crate) fn rope_to_string(r: &ropey::Rope) -> (s: String)
    ensures
        s@ == rope_chars(*r),
{
    r.to_string()
}

/// `Rope::line` collected into a `String`: line `l` with its line break (it
/// panics for `l >= len_lines()`, which `requires` rules out).
#[verifier::external_body]
pub(crate) fn rope_line_string(r: &ropey::Rope, l: usize) -> (s: String)
    requires
        l < line_count_spec(rope_chars(*r)),
    ensures
        s@ == line_text_spec(rope_chars(*r), l as int),
{
    r.line(l).to_string()
}

/// `RopeSlice::len_chars` of `Rope::line(l)`: the chars of line `l`, its line
/// break included.
#[verifier::external_body]
pub(crate) fn rope_line_len_chars(r: &ropey::Rope, l: usize) -> (n: usize)
    requires
        l < line_count_spec(rope_chars(*r)),
    ensures
        n == line_text_spec(rope_chars(*r), l as int).len(),
{
    r.line(l).len_chars()
}

} // verus!
