//! Positions in source text: from the byte offsets a regular expression reports
//! to char indices and 1-based line numbers.
use vstd::prelude::*;
use crate::rope_text::{byte_to_char_spec, char_width, lemma_byte_to_char_bound, lemma_utf8_len_append, utf8_len};
use crate::text::chars_of;

verus! {

/// The UTF-8 width of `c`.
fn char_width_exec(c: char) -> (w: usize)
    ensures
        w == char_width(c),
{
    let u = c as u32;
    if u <= 0x7F {
        1
    } else if u <= 0x7FF {
        2
    } else if u <= 0xFFFF {
        3
    } else {
        4
    }
}

/// The index of the char of `v` that holds byte `b` of its UTF-8 encoding
/// (`v.len()` for an offset at or past the end).
pub fn char_index_of_byte(v: &Vec<char>, b: usize) -> (r: usize)
    ensures
        r == byte_to_char_spec(v@, b as int),
{
    let mut i: usize = 0;
    let mut acc: usize = 0;
    assert(v@.skip(0) =~= v@);
    while i < v.len()
        invariant
            i <= v@.len(),
            acc <= b,
            byte_to_char_spec(v@, b as int) == i + byte_to_char_spec(v@.skip(i as int), b - acc),
        decreases v@.len() - i,
    {
        let w = char_width_exec(v[i]);
        assert(v@.skip(i as int)[0] == v@[i as int]);
        assert(v@.skip(i as int).drop_first() =~= v@.skip(i + 1));
        if b - acc < w {
            return i;
        }
        acc = acc + w;
        i += 1;
    }
    assert(v@.skip(i as int) =~= Seq::<char>::empty());
    i
}

/// Number of `'\n'` chars in `s`.
pub open spec fn newline_count(s: Seq<char>) -> nat
    decreases s.len(),
{
    if s.len() == 0 {
        0
    } else {
        newline_count(s.drop_last()) + if s.last() == '\n' {
            1nat
        } else {
            0nat
        }
    }
}

/// The 1-based line of byte offset `offset` of `s` (clamped to the text), as a
/// `u32` (counted modulo 2^32).
pub open spec fn line_of_offset_spec(s: Seq<char>, offset: int) -> u32 {
    ((newline_count(s.take(byte_to_char_spec(s, offset) as int)) + 1) % 0x1_0000_0000) as u32
}

/// Number of `'\n'` chars among the first `end` chars of `v`.
pub fn count_newlines(v: &Vec<char>, end: usize) -> (n: usize)
    requires
        end <= v@.len(),
    ensures
        n == newline_count(v@.take(end as int)),
{
    let mut n: usize = 0;
    let mut i: usize = 0;
    assert(v@.take(0) =~= Seq::<char>::empty());
    while i < end
        invariant
            i <= end <= v@.len(),
            n == newline_count(v@.take(i as int)),
            n <= i,
        decreases end - i,
    {
        assert(v@.take(i + 1).drop_last() =~= v@.take(i as int));
        if v[i] == '\n' {
            n += 1;
        }
        i += 1;
    }
    n
}

/// The 1-based line number of byte offset `offset` in the chars `v`.
pub fn line_of_offset(v: &Vec<char>, offset: usize) -> (line: u32)
    ensures
        line == line_of_offset_spec(v@, offset as int),
{
    let c = char_index_of_byte(v, offset);
    proof {
        lemma_byte_to_char_bound(v@, offset as int);
    }
    let n = count_newlines(v, c);
    let m: u128 = (n as u128 + 1) % 0x1_0000_0000;
    m as u32
}

} // verus!
