//! Regular-expression matching through the `regex` crate.
//!
//! What a regular expression matches is stated by name only: the names below
//! stand for what the `regex` crate computes, as a function of the pattern and
//! the searched text.
use vstd::prelude::*;
use crate::types::opt_string_view;
use vstd::string::StringSliceAdditionalSpecFns;

verus! {

#[verifier::external_type_specification]
#[verifier::external_body]
pub struct ExRegex(regex::Regex);

/// A compiled regular expression together with the pattern it was compiled from.
pub struct Pattern {
    re: regex::Regex,
    source: String,
}

impl View for Pattern {
    type V = Seq<char>;

    /// The pattern this expression was compiled from.
    closed spec fn view(&self) -> Seq<char> {
        self.source@
    }
}

/// Whether `regex::Regex::new` accepts the pattern.
pub uninterp spec fn regex_valid(pattern: Seq<char>) -> bool;

/// What `regex::Regex::is_match` answers for the pattern on the text.
pub uninterp spec fn regex_is_match(pattern: Seq<char>, text: Seq<char>) -> bool;

/// What `regex::Regex::captures` finds: the byte offset where the leftmost-first
/// match starts, and the text of each capture group (group 0 is the whole match).
pub uninterp spec fn regex_captures(pattern: Seq<char>, text: Seq<char>) -> Option<(nat, Seq<Option<Seq<char>>>)>;

/// What `regex::Regex::captures_iter` yields: for each successive non-overlapping
/// match, its starting byte offset and the text of each capture group.
pub uninterp spec fn regex_captures_all(pattern: Seq<char>, text: Seq<char>) -> Seq<(nat, Seq<Option<Seq<char>>>)>;

/// What `regex::Regex::find` finds: the byte span of the leftmost-first match.
pub uninterp spec fn regex_find(pattern: Seq<char>, text: Seq<char>) -> Option<(nat, nat)>;

/// What `regex::Regex::find_iter` yields: the byte spans of the successive
/// non-overlapping matches.
pub uninterp spec fn regex_find_all(pattern: Seq<char>, text: Seq<char>) -> Seq<(nat, nat)>;

/// What `regex::Captures::expand` writes for the captures of the first match of
/// the pattern in the text, with the template's `$name` references filled in;
/// empty when the pattern does not match.
pub uninterp spec fn regex_expand(pattern: Seq<char>, text: Seq<char>, template: Seq<char>) -> Seq<char>;

/// The group texts of one match, as characters.
pub open spec fn groups_view(g: Seq<Option<String>>) -> Seq<Option<Seq<char>>> {
    g.map_values(|o: Option<String>| opt_string_view(o))
}

/// `true` when `c` has a meaning in regular-expression syntax.
pub open spec fn is_meta_character(c: char) -> bool {
    c == '\\' || c == '.' || c == '+' || c == '*' || c == '?' || c == '(' || c == ')' || c == '|'
        || c == '[' || c == ']' || c == '{' || c == '}' || c == '^' || c == '$' || c == '#'
        || c == '&' || c == '-' || c == '~'
}

/// `text` with a backslash put before every meta character.
pub open spec fn escape_spec(text: Seq<char>) -> Seq<char>
    decreases text.len(),
{
    if text.len() == 0 {
        seq![]
    } else {
        let c = text.last();
        escape_spec(text.drop_last()) + if is_meta_character(c) { seq!['\\', c] } else { seq![c] }
    }
}

/// `regex::Regex::new`: compiles `pattern`, and fails exactly when
/// `regex_valid` does not hold of it.
#[verifier::external_body]
pub(crate) fn compile(pattern: &str) -> (r: Option<Pattern>)
    ensures
        r is Some <==> regex_valid(pattern@),
        r matches Some(p) ==> p@ == pattern@,
{
    match regex::Regex::new(pattern) {
        Ok(re) => Some(Pattern { re, source: pattern.to_string() }),
        Err(_) => None,
    }
}

/// `regex::Regex::is_match`: the answer is `regex_is_match` of the pattern and text.
#[verifier::external_body]
pub(crate) fn is_match(p: &Pattern, text: &str) -> (r: bool)
    ensures
        r == regex_is_match(p@, text@),
{
    p.re.is_match(text)
}

/// `regex::Regex::captures`: the start of the match and the group texts are
/// `regex_captures` of the pattern and text; the start lies within the text's bytes.
#[verifier::external_body]
pub(crate) fn captures(p: &Pattern, text: &str) -> (r: Option<(usize, Vec<Option<String>>)>)
    ensures
        r is None <==> regex_captures(p@, text@) is None,
        r matches Some(c) ==> regex_captures(p@, text@) == Some((c.0 as nat, groups_view(c.1@))),
        r matches Some(c) ==> c.0 <= text.spec_bytes().len(),
{
    p.re.captures(text).map(|c| {
        let start = c.get(0).map_or(0, |m| m.start());
        let groups: Vec<Option<String>> = c.iter().map(|m| m.map(|m| m.as_str().to_string())).collect();
        (start, groups)
    })
}

/// `regex::Regex::captures_iter`: the starts and group texts of all matches are
/// `regex_captures_all` of the pattern and text; every start lies within the text's bytes.
#[verifier::external_body]
pub(crate) fn captures_all(p: &Pattern, text: &str) -> (r: Vec<(usize, Vec<Option<String>>)>)
    ensures
        regex_captures_all(p@, text@) == r@.map_values(|c: (usize, Vec<Option<String>>)| (c.0 as nat, groups_view(c.1@))),
        forall|i: int| 0 <= i < r@.len() ==> #[trigger] r@[i].0 <= text.spec_bytes().len(),
{
    p.re.captures_iter(text).map(|c| {
        let start = c.get(0).map_or(0, |m| m.start());
        let groups: Vec<Option<String>> = c.iter().map(|m| m.map(|m| m.as_str().to_string())).collect();
        (start, groups)
    }).collect()
}

/// `regex::Regex::find`: the span is `regex_find` of the pattern and text, and
/// lies within the text's bytes.
#[verifier::external_body]
pub(crate) fn find(p: &Pattern, text: &str) -> (r: Option<(usize, usize)>)
    ensures
        r is None <==> regex_find(p@, text@) is None,
        r matches Some(m) ==> regex_find(p@, text@) == Some((m.0 as nat, m.1 as nat)),
        r matches Some(m) ==> m.0 <= m.1 <= text.spec_bytes().len(),
{
    p.re.find(text).map(|m| (m.start(), m.end()))
}

/// `regex::Regex::find_iter`: the spans are `regex_find_all` of the pattern and
/// text; each span lies within the text's bytes.
#[verifier::external_body]
pub(crate) fn find_all(p: &Pattern, text: &str) -> (r: Vec<(usize, usize)>)
    ensures
        regex_find_all(p@, text@) == r@.map_values(|m: (usize, usize)| (m.0 as nat, m.1 as nat)),
        forall|i: int| 0 <= i < r@.len() ==> #[trigger] r@[i].0 <= r@[i].1 <= text.spec_bytes().len(),
{
    p.re.find_iter(text).map(|m| (m.start(), m.end())).collect()
}

/// `regex::Regex::captures` followed by `regex::Captures::expand`: the expanded
/// template is `regex_expand` of the pattern, text and template.
#[verifier::external_body]
pub(crate) fn expand_first(p: &Pattern, text: &str, template: &str) -> (r: String)
    ensures
        r@ == regex_expand(p@, text@, template@),
{
    let mut dest = String::new();
    if let Some(caps) = p.re.captures(text) {
        caps.expand(template, &mut dest);
    }
    dest
}

/// `text` with a backslash put before every meta character: what
/// `regex::escape` gives.
pub(crate) fn escape(text: &str) -> (r: String)
    ensures
        r@ == escape_spec(text@),
{
    let cs = crate::text::chars_of(text);
    let mut out = String::new();
    let mut i: usize = 0;
    while i < cs.len()
        invariant
            i <= cs@.len(),
            cs@ == text@,
            out@ == escape_spec(cs@.take(i as int)),
        decreases cs@.len() - i,
    {
        let c = cs[i];
        assert(cs@.take(i + 1).drop_last() =~= cs@.take(i as int));
        if c == '\\' || c == '.' || c == '+' || c == '*' || c == '?' || c == '(' || c == ')' || c == '|'
            || c == '[' || c == ']' || c == '{' || c == '}' || c == '^' || c == '$' || c == '#'
            || c == '&' || c == '-' || c == '~' {
            crate::text::push_char(&mut out, '\\');
        }
        crate::text::push_char(&mut out, c);
        i += 1;
    }
    assert(cs@.take(i as int) =~= cs@);
    out
}

} // verus!
