//! Tree-sitter syntax parsing and the per-document layer registry.
use vstd::prelude::*;
use tree_sitter::{InputEdit, Language, LanguageError, Parser, Tree};
use crate::text::{owned, push_str, str_eq};

verus! {

#[verifier::external_type_specification]
#[verifier::external_body]
pub struct ExParser(tree_sitter::Parser);

#[verifier::external_type_specification]
#[verifier::external_body]
pub struct ExTree(tree_sitter::Tree);

#[verifier::external_type_specification]
#[verifier::external_body]
pub struct ExLanguage(tree_sitter::Language);

#[verifier::external_type_specification]
#[verifier::external_body]
pub struct ExLanguageError(tree_sitter::LanguageError);

#[verifier::external_type_specification]
#[verifier::external_body]
pub struct ExInputEdit(tree_sitter::InputEdit);

/// The Java grammar of tree-sitter-java (generated for tree-sitter language
/// version 14). Only `java_language` makes one.
struct JavaGrammar {
    language: Language,
}

/// A tree-sitter parser with the Java grammar assigned. Only
/// `SyntaxLayer::new` makes one, right after `Parser::set_language` accepted
/// the grammar; no timeout or cancellation flag is ever set on it.
struct JavaParser {
    parser: Parser,
}

/// A Java syntax tree, with the text it is the parse of when that is known:
/// `Some` for a tree parsed without reusing an older one, `None` for a tree
/// that was edited or parsed by reusing an edited tree. Only the wrappers
/// below make or change one.
struct JavaTree {
    tree: Tree,
    source: Ghost<Option<Seq<char>>>,
}

/// The S-expression that `Node::to_sexp` gives for the root of the tree that
/// tree-sitter-java parses from `text`.
pub uninterp spec fn java_sexp(text: Seq<char>) -> Seq<char>;

/// `tree_sitter_java::language`: the Java grammar.
#[verifier::external_body]
fn java_language() -> (g: JavaGrammar) {
    JavaGrammar { language: tree_sitter_java::language() }
}

/// `Parser::new`: a parser with no language assigned.
#[verifier::external_body]
fn parser_new() -> (p: Parser) {
    Parser::new()
}

/// `Parser::set_language` with the Java grammar: it assigns the grammar,
/// because the grammar's version (14) lies in the range this tree-sitter
/// accepts (`MIN_COMPATIBLE_LANGUAGE_VERSION` 13 to `LANGUAGE_VERSION` 14).
#[verifier::external_body]
fn parser_set_language(p: &mut Parser, g: &JavaGrammar) -> (r: Result<(), LanguageError>)
    ensures
        r is Ok,
{
    p.set_language(&g.language)
}

/// `Parser::parse`: the syntax tree of `text`, reusing `old` where it can. It
/// returns `None` only when no language is assigned, a timeout expired or a
/// cancellation flag was flipped, none of which can hold of a `JavaParser`.
/// Without `old` the tree is the parse of `text`.
#[verifier::external_body]
fn parser_parse(p: &mut JavaParser, text: &str, old: Option<&JavaTree>) -> (r: Option<JavaTree>)
    ensures
        r is Some,
        old is None ==> r->0.source@ == Some(text@),
        old is Some ==> r->0.source@ is None,
{
    let source: Ghost<Option<Seq<char>>> = Ghost(if old is None { Some(text@) } else { None });
    p.parser.parse(text.as_bytes(), old.map(|o| &o.tree)).map(|tree| JavaTree { tree, source })
}

/// `Tree::edit`: shifts the tree's node positions to match an edit of its
/// source text; the tree is then no longer the parse of any known text.
#[verifier::external_body]
fn tree_edit(t: &mut JavaTree, edit: &InputEdit)
    ensures
        final(t).source@ is None,
{
    t.tree.edit(edit);
    t.source = Ghost(None);
}

/// `Node::to_sexp` on `Tree::root_node`: the S-expression of the whole tree,
/// which for the parse of a known text is `java_sexp` of that text.
#[verifier::external_body]
fn tree_root_sexp(t: &JavaTree) -> (s: String)
    ensures
        t.source@ matches Some(x) ==> s@ == java_sexp(x),
{
    t.tree.root_node().to_sexp()
}

/// The one language identifier that has a grammar.
pub open spec fn has_grammar(id: Seq<char>) -> bool {
    id == "java"@
}

/// Why a syntax operation failed.
#[derive(Debug, Clone, PartialEq, Eq)]
pub enum SyntaxError {
    /// No tree-sitter grammar is registered for the language identifier.
    UnknownLanguage(String),
    /// The grammar for the language identifier could not be loaded.
    IncompatibleLanguage(String),
    /// Parsing the whole document produced no tree.
    ParseFullFailed(String),
    /// Parsing the edited document produced no tree.
    ParseIncrementalFailed(String),
}

/// The text of a syntax error.
pub open spec fn syntax_error_message(e: SyntaxError) -> Seq<char> {
    match e {
        SyntaxError::UnknownLanguage(id) => "no tree-sitter language for '"@ + id@ + "'"@,
        SyntaxError::IncompatibleLanguage(id) => "set_language error for '"@ + id@ + "'"@,
        SyntaxError::ParseFullFailed(id) => "tree-sitter parse_full failed for '"@ + id@ + "'"@,
        SyntaxError::ParseIncrementalFailed(id) => "tree-sitter parse_incremental failed for '"@
            + id@ + "'"@,
    }
}

fn quoted(prefix: &str, id: &String) -> (r: String)
    ensures
        r@ == prefix@ + id@ + "'"@,
{
    let mut r = owned(prefix);
    push_str(&mut r, id.as_str());
    push_str(&mut r, "'");
    r
}

impl SyntaxError {
    /// A human-readable description of the error.
    pub fn message(&self) -> (r: String)
        ensures
            r@ == syntax_error_message(*self),
    {
        match self {
            SyntaxError::UnknownLanguage(id) => quoted("no tree-sitter language for '", id),
            SyntaxError::IncompatibleLanguage(id) => quoted("set_language error for '", id),
            SyntaxError::ParseFullFailed(id) => quoted("tree-sitter parse_full failed for '", id),
            SyntaxError::ParseIncrementalFailed(id) => quoted(
                "tree-sitter parse_incremental failed for '",
                id,
            ),
        }
    }
}

/// A byte-range span annotated with a highlight category name.
#[derive(Debug, Clone)]
pub struct HighlightRange {
    pub start_byte: usize,
    pub end_byte: usize,
    pub start_line: u32,
    pub end_line: u32,
    /// Highlight category, e.g. `"keyword"`, `"string"`, `"comment"`.
    pub highlight_name: &'static str,
}

/// What a syntax layer is: its language, whether it holds a parse tree, and
/// the text that tree is the parse of (`None` when it holds no tree, or a
/// tree that was edited but not re-parsed).
pub struct SyntaxLayerView {
    pub language_id: Seq<char>,
    pub parsed: bool,
    pub source: Option<Seq<char>>,
}

/// A per-document tree-sitter parsing context.
pub struct SyntaxLayer {
    language_id: String,
    parser: JavaParser,
    tree: Option<JavaTree>,
}

impl View for SyntaxLayer {
    type V = SyntaxLayerView;

    closed spec fn view(&self) -> SyntaxLayerView {
        SyntaxLayerView {
            language_id: self.language_id@,
            parsed: self.tree is Some,
            source: match self.tree {
                Some(t) => t.source@,
                None => None,
            },
        }
    }
}

/// Map a language identifier to its tree-sitter grammar: `"java"` has one,
/// every other identifier has none.
pub fn language_for_id(id: &str) -> (r: Option<Language>)
    ensures
        r is Some <==> has_grammar(id@),
{
    if str_eq(id, "java") {
        proof {
            reveal_strlit("java");
        }
        Some(java_language().language)
    } else {
        proof {
            reveal_strlit("java");
        }
        None
    }
}

impl SyntaxLayer {
    /// Create a new layer for the given language identifier, with no tree yet.
    ///
    /// Fails with `UnknownLanguage` exactly when no grammar is registered for
    /// `language_id`. (`IncompatibleLanguage` would report a grammar that
    /// tree-sitter cannot load; the Java grammar always loads.)
    pub fn new(language_id: &str) -> (r: Result<Self, SyntaxError>)
        ensures
            r is Ok <==> has_grammar(language_id@),
            r matches Ok(layer) ==> layer@.language_id == language_id@ && !layer@.parsed
                && layer@.source is None,
            r matches Err(e) ==> e matches SyntaxError::UnknownLanguage(m) && m@ == language_id@,
    {
        proof {
            reveal_strlit("java");
        }
        if !str_eq(language_id, "java") {
            return Err(SyntaxError::UnknownLanguage(owned(language_id)));
        }
        let grammar = java_language();
        let mut parser = parser_new();
        match parser_set_language(&mut parser, &grammar) {
            Ok(()) => Ok(SyntaxLayer {
                language_id: owned(language_id),
                parser: JavaParser { parser },
                tree: None,
            }),
            Err(_) => Err(SyntaxError::IncompatibleLanguage(owned(language_id))),
        }
    }

    /// The language identifier this layer parses.
    pub fn language_id(&self) -> (r: &str)
        ensures
            r@ == self@.language_id,
    {
        self.language_id.as_str()
    }

    /// Parse the full document text, discarding any prior tree; the layer then
    /// holds the tree of `text`.
    pub fn parse_full(&mut self, text: &str) -> (r: Result<(), SyntaxError>)
        ensures
            r is Ok,
            final(self)@.language_id == old(self)@.language_id,
            final(self)@.parsed,
            final(self)@.source == Some(text@),
    {
        match parser_parse(&mut self.parser, text, None) {
            Some(t) => {
                self.tree = Some(t);
                Ok(())
            },
            None => Err(SyntaxError::ParseFullFailed(self.language_id.clone())),
        }
    }

    /// Apply `edit` to the existing tree and re-parse incrementally; with no
    /// prior tree this is a full parse. The layer then holds the new tree,
    /// which is the parse of `text` as such only in the full-parse case.
    pub fn parse_incremental(&mut self, text: &str, edit: &InputEdit) -> (r: Result<(), SyntaxError>)
        ensures
            r is Ok,
            final(self)@.language_id == old(self)@.language_id,
            final(self)@.parsed,
            !old(self)@.parsed ==> final(self)@.source == Some(text@),
            old(self)@.parsed ==> final(self)@.source is None,
    {
        let prior = self.tree.take();
        let edited = match prior {
            Some(mut t) => {
                tree_edit(&mut t, edit);
                Some(t)
            },
            None => None,
        };
        let parsed = parser_parse(&mut self.parser, text, edited.as_ref());
        match parsed {
            Some(t) => {
                self.tree = Some(t);
                Ok(())
            },
            None => {
                self.tree = edited;
                Err(SyntaxError::ParseIncrementalFailed(self.language_id.clone()))
            },
        }
    }

    /// The S-expression of the current parse tree's root, or `None` before
    /// the first parse. For a tree that is the parse of a known text it is
    /// that text's `java_sexp`.
    pub fn root_node_sexp(&self) -> (r: Option<String>)
        ensures
            r is Some <==> self@.parsed,
            self@.source matches Some(x) ==> (r matches Some(s) && s@ == java_sexp(x)),
    {
        match &self.tree {
            Some(t) => Some(tree_root_sexp(t)),
            None => None,
        }
    }
}

/// The map from document URI to its syntax layer.
pub type LayerMap = dashmap::DashMap<String, SyntaxLayer>;

/// What a layer map holds under each URI, each layer by its view.
pub uninterp spec fn layer_contents(m: LayerMap) -> Map<Seq<char>, SyntaxLayerView>;

/// The registry with no document.
pub open spec fn no_layers() -> Map<Seq<char>, SyntaxLayerView> {
    Map::empty()
}

/// `DashMap::new`: an empty map.
#[verifier::external_body]
fn layer_map_new() -> (m: LayerMap)
    ensures
        layer_contents(m) == no_layers(),
{
    dashmap::DashMap::new()
}

/// `DashMap::contains_key`: whether `key` has a layer.
#[verifier::external_body]
fn layer_map_contains(m: &LayerMap, key: &str) -> (r: bool)
    ensures
        r == layer_contents(*m).dom().contains(key@),
{
    m.contains_key(key)
}

/// `DashMap::insert`: puts `layer` under `key`, replacing what was there.
#[verifier::external_body]
fn layer_map_insert(m: &mut LayerMap, key: String, layer: SyntaxLayer)
    ensures
        layer_contents(*final(m)) == layer_contents(*old(m)).insert(key@, layer@),
{
    m.insert(key, layer);
}

/// `DashMap::remove`: takes the layer under `key` out of the map.
#[verifier::external_body]
fn layer_map_remove(m: &mut LayerMap, key: &str) -> (r: Option<SyntaxLayer>)
    ensures
        r is Some <==> layer_contents(*old(m)).dom().contains(key@),
        r matches Some(l) ==> l@ == layer_contents(*old(m))[key@],
        layer_contents(*final(m)) == layer_contents(*old(m)).remove(key@),
{
    m.remove(key).map(|(_, l)| l)
}

/// A registry that maps document URIs to their syntax layers.
pub struct SyntaxRegistry {
    layers: LayerMap,
}

impl View for SyntaxRegistry {
    type V = Map<Seq<char>, SyntaxLayerView>;

    closed spec fn view(&self) -> Map<Seq<char>, SyntaxLayerView> {
        layer_contents(self.layers)
    }
}

impl SyntaxRegistry {
    /// Create an empty registry.
    pub fn new() -> (r: Self)
        ensures
            r@ == no_layers(),
    {
        SyntaxRegistry { layers: layer_map_new() }
    }

    /// Ensure a syntax layer exists for `uri`.
    ///
    /// A layer that already exists is left unchanged, whatever its language;
    /// otherwise a fresh, unparsed layer for `language_id` is added, unless
    /// creating it fails, in which case the registry is unchanged.
    pub fn get_or_create(&mut self, uri: &str, language_id: &str) -> (r: Result<(), SyntaxError>)
        ensures
            r is Ok <==> (old(self)@.dom().contains(uri@) || has_grammar(language_id@)),
            old(self)@.dom().contains(uri@) ==> final(self)@ == old(self)@,
            r matches Err(e) ==> e matches SyntaxError::UnknownLanguage(m) && m@ == language_id@,
            r is Ok && !old(self)@.dom().contains(uri@) ==> final(self)@ == old(self)@.insert(
                uri@,
                SyntaxLayerView { language_id: language_id@, parsed: false, source: None },
            ),
            r is Err ==> final(self)@ == old(self)@,
    {
        if !layer_map_contains(&self.layers, uri) {
            let layer = SyntaxLayer::new(language_id)?;
            layer_map_insert(&mut self.layers, owned(uri), layer);
        }
        Ok(())
    }

    /// Re-parse the document identified by `uri` from its full text.
    ///
    /// Does nothing when no layer is registered for `uri`; never fails.
    pub fn update(&mut self, uri: &str, full_text: &str) -> (r: Result<(), SyntaxError>)
        ensures
            r is Ok,
            !old(self)@.dom().contains(uri@) ==> final(self)@ == old(self)@,
            old(self)@.dom().contains(uri@) ==> final(self)@ == old(self)@.insert(
                uri@,
                SyntaxLayerView { language_id: old(self)@[uri@].language_id, parsed: true, source: Some(full_text@) },
            ),
    {
        match layer_map_remove(&mut self.layers, uri) {
            None => Ok(()),
            Some(mut layer) => {
                let r = layer.parse_full(full_text);
                layer_map_insert(&mut self.layers, owned(uri), layer);
                proof {
                    assert(old(self)@.remove(uri@).insert(uri@, old(self)@[uri@]) =~= old(self)@);
                    assert(final(self)@.dom() =~= old(self)@.dom());
                }
                r
            },
        }
    }

    /// Remove the syntax layer for `uri`, e.g. when the document is closed.
    pub fn remove(&mut self, uri: &str)
        ensures
            final(self)@ == old(self)@.remove(uri@),
    {
        let _ = layer_map_remove(&mut self.layers, uri);
    }

    /// Whether a layer is registered for `uri`.
    pub fn contains(&self, uri: &str) -> (r: bool)
        ensures
            r == self@.dom().contains(uri@),
    {
        layer_map_contains(&self.layers, uri)
    }

    /// Map a language identifier to its tree-sitter grammar.
    pub fn language_for_id(id: &str) -> (r: Option<Language>)
        ensures
            r is Some <==> has_grammar(id@),
    {
        language_for_id(id)
    }
}

impl Default for SyntaxRegistry {
    fn default() -> (r: Self)
        ensures
            r@ == no_layers(),
    {
        Self::new()
    }
}

} // verus!
