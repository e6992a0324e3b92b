//! The tree-sitter calls the classifiers make: loading a grammar, parsing, and
//! reading nodes of the syntax tree.
//!
//! A parse is a function of the grammar and the text, so what it yields is named:
//! each node is reached by its path from the root, and what a node query returns
//! is a name applied to the grammar, the text and that path.
use vstd::prelude::*;

use tree_sitter::Language as TsLanguage;
use tree_sitter::{LanguageError, Node, Parser, Tree};

verus! {

#[verifier::external_type_specification]
#[verifier::external_body]
pub struct ExParser(Parser);

#[verifier::external_type_specification]
#[verifier::external_body]
pub struct ExTree(Tree);

#[verifier::external_type_specification]
#[verifier::external_body]
pub struct ExNode<'tree>(Node<'tree>);

#[verifier::external_type_specification]
#[verifier::external_body]
pub struct ExLanguageError(LanguageError);

#[verifier::external_type_specification]
#[verifier::external_body]
pub struct ExTsLanguage(TsLanguage);

/// The grammars this crate parses with.
#[derive(Debug, Clone, Copy, PartialEq, Eq, Structural)]
pub enum Grammar {
    Python,
    JavaScript,
    TypeScript,
    Tsx,
}

/// Whether the grammar's language loads into a parser: `Parser::set_language`
/// accepts it (its ABI version is one this tree-sitter supports and it is
/// parseable). This depends on the grammar alone.
pub uninterp spec fn grammar_loads(grammar: Grammar) -> bool;

/// `Node::kind` of the node at `path` (a path from the root: `(i, "")` steps to
/// the `i`-th named child, `(-1, f)` to the child in field `f`) in the tree of `source` parsed with `grammar`.
pub uninterp spec fn syntax_kind(grammar: Grammar, source: Seq<char>, path: Seq<(int, Seq<char>)>) -> Seq<char>;

/// `Node::named_child_count` of the node at `path`.
pub uninterp spec fn syntax_named_count(grammar: Grammar, source: Seq<char>, path: Seq<(int, Seq<char>)>) -> usize;

/// Whether `Node::named_child(i)` of the node at `path` gives a node.
pub uninterp spec fn syntax_has_named(grammar: Grammar, source: Seq<char>, path: Seq<(int, Seq<char>)>, i: int) -> bool;

/// Whether `Node::child_by_field_name(field)` of the node at `path` gives a node.
pub uninterp spec fn syntax_has_field(
    grammar: Grammar,
    source: Seq<char>,
    path: Seq<(int, Seq<char>)>,
    field: Seq<char>,
) -> bool;

/// The row of `Node::start_position` of the node at `path`.
pub uninterp spec fn syntax_start_row(grammar: Grammar, source: Seq<char>, path: Seq<(int, Seq<char>)>) -> usize;

/// The row of `Node::end_position` of the node at `path`.
pub uninterp spec fn syntax_end_row(grammar: Grammar, source: Seq<char>, path: Seq<(int, Seq<char>)>) -> usize;

/// `Node::descendant_count` of the node at `path`.
pub uninterp spec fn syntax_descendants(grammar: Grammar, source: Seq<char>, path: Seq<(int, Seq<char>)>) -> usize;

/// A tree-sitter parser, with the grammar it has loaded.
pub struct GrammarParser {
    parser: Parser,
    loaded: Ghost<Option<Grammar>>,
}

impl GrammarParser {
    pub closed spec fn loaded(&self) -> Option<Grammar> {
        self.loaded@
    }
}

/// A syntax tree, with the grammar and text it was parsed from.
pub struct ParsedTree {
    tree: Tree,
    grammar: Ghost<Grammar>,
    source: Ghost<Seq<char>>,
}

impl ParsedTree {
    pub closed spec fn grammar(&self) -> Grammar {
        self.grammar@
    }

    pub closed spec fn source(&self) -> Seq<char> {
        self.source@
    }
}

/// A node of a syntax tree, with its path from the root.
pub struct SyntaxNode<'a> {
    node: Node<'a>,
    grammar: Ghost<Grammar>,
    source: Ghost<Seq<char>>,
    path: Ghost<Seq<(int, Seq<char>)>>,
}

impl<'a> SyntaxNode<'a> {
    pub closed spec fn grammar(&self) -> Grammar {
        self.grammar@
    }

    pub closed spec fn source(&self) -> Seq<char> {
        self.source@
    }

    pub closed spec fn path(&self) -> Seq<(int, Seq<char>)> {
        self.path@
    }
}

/// `Parser::new`: a parser with no language assigned.
#[verifier::external_body]
fn parser_new() -> (p: GrammarParser)
    ensures
        p.loaded() is None,
{
    GrammarParser { parser: Parser::new(), loaded: Ghost(None) }
}

/// `Parser::set_language` with the grammar's language (`From<LanguageFn>` of the
/// grammar crate's `LANGUAGE`).
#[verifier::external_body]
fn parser_set_grammar(parser: &mut GrammarParser, grammar: Grammar) -> (r: Result<(), LanguageError>)
    ensures
        (r is Ok) == grammar_loads(grammar),
        final(parser).loaded() == if r is Ok {
            Some(grammar)
        } else {
            None
        },
{
    let language: TsLanguage = match grammar {
        Grammar::Python => tree_sitter_python::LANGUAGE.into(),
        Grammar::JavaScript => tree_sitter_javascript::LANGUAGE.into(),
        Grammar::TypeScript => tree_sitter_typescript::LANGUAGE_TYPESCRIPT.into(),
        Grammar::Tsx => tree_sitter_typescript::LANGUAGE_TSX.into(),
    };
    let r = parser.parser.set_language(&language);
    parser.loaded = Ghost(if r.is_ok() { Some(grammar) } else { None });
    r
}

/// `Parser::parse` without an old tree: per its documentation it gives a tree
/// whenever a language has been assigned.
#[verifier::external_body]
fn parser_parse(parser: &mut GrammarParser, source: &str) -> (r: Option<ParsedTree>)
    requires
        old(parser).loaded() is Some,
    ensures
        r is Some,
        r matches Some(t) ==> t.grammar() == old(parser).loaded()->0 && t.source() == source@,
        final(parser).loaded() == old(parser).loaded(),
{
    let grammar = Ghost(parser.loaded@->0);
    parser.parser.parse(source, None).map(|tree| ParsedTree { tree, grammar, source: Ghost(source@) })
}

/// The `Display` text of a `LanguageError`.
#[verifier::external_body]
fn language_error_text(error: &LanguageError) -> String {
    format!("{error}")
}

/// Loads `grammar` into a new parser and parses `source`. It succeeds exactly when
/// the grammar loads, and then gives the tree of `source`; `Err` carries the load
/// failure as `failed to load <parser name>: <error>`.
pub fn parse_with(grammar: Grammar, parser_name: &str, source: &str) -> (r: Result<Option<ParsedTree>, String>)
    ensures
        (r is Ok) == grammar_loads(grammar),
        r matches Ok(t) ==> (t matches Some(pt) && pt.grammar() == grammar && pt.source() == source@),
        r matches Err(e) ==> exists|t: Seq<char>| e@ == "failed to load "@ + parser_name@ + ": "@ + t,
{
    let mut parser = parser_new();
    match parser_set_grammar(&mut parser, grammar) {
        Ok(()) => Ok(parser_parse(&mut parser, source)),
        Err(error) => {
            let text = language_error_text(&error);
            let mut out: Vec<char> = Vec::new();
            crate::text::push_str(&mut out, "failed to load ");
            crate::text::push_str(&mut out, parser_name);
            crate::text::push_str(&mut out, ": ");
            crate::text::push_str(&mut out, text.as_str());
            let s = crate::text::string_from_chars(out.as_slice());
            assert(s@ == "failed to load "@ + parser_name@ + ": "@ + text@);
            Err(s)
        },
    }
}

/// `Tree::root_node`.
#[verifier::external_body]
pub(crate) fn tree_root<'a>(tree: &'a ParsedTree) -> (n: SyntaxNode<'a>)
    ensures
        n.grammar() == tree.grammar(),
        n.source() == tree.source(),
        n.path() == Seq::<(int, Seq<char>)>::empty(),
{
    SyntaxNode { node: tree.tree.root_node(), grammar: Ghost(tree.grammar@), source: Ghost(tree.source@), path: Ghost(Seq::empty()) }
}

/// `Node::kind`, the node's grammar type name.
#[verifier::external_body]
pub(crate) fn node_kind(node: &SyntaxNode) -> (r: String)
    ensures
        r@ == syntax_kind(node.grammar(), node.source(), node.path()),
{
    node.node.kind().to_owned()
}

/// `Node::named_child_count`, a `u32` count in the source.
#[verifier::external_body]
pub(crate) fn node_named_child_count(node: &SyntaxNode) -> (r: usize)
    ensures
        r == syntax_named_count(node.grammar(), node.source(), node.path()),
        r <= u32::MAX,
{
    node.node.named_child_count()
}

/// `Node::named_child`.
#[verifier::external_body]
pub(crate) fn node_named_child<'a>(node: &SyntaxNode<'a>, i: u32) -> (r: Option<SyntaxNode<'a>>)
    ensures
        (r is Some) == syntax_has_named(node.grammar(), node.source(), node.path(), i as int),
        r matches Some(c) ==> c.grammar() == node.grammar() && c.source() == node.source() && c.path()
            == node.path().push((i as int, Seq::<char>::empty())),
{
    let (grammar, source, path) = (Ghost(node.grammar@), Ghost(node.source@), Ghost(node.path@.push((i as int, Seq::empty()))));
    node.node.named_child(i).map(|child| SyntaxNode { node: child, grammar, source, path })
}

/// `Node::child_by_field_name`.
#[verifier::external_body]
pub(crate) fn node_child_by_field_name<'a>(node: &SyntaxNode<'a>, field: &str) -> (r: Option<SyntaxNode<'a>>)
    ensures
        (r is Some) == syntax_has_field(node.grammar(), node.source(), node.path(), field@),
        r matches Some(c) ==> c.grammar() == node.grammar() && c.source() == node.source() && c.path()
            == node.path().push((-1, field@)),
{
    let (grammar, source, path) = (Ghost(node.grammar@), Ghost(node.source@), Ghost(node.path@.push((-1, field@))));
    node.node.child_by_field_name(field).map(|child| SyntaxNode { node: child, grammar, source, path })
}

/// The row of `Node::start_position`.
#[verifier::external_body]
pub(crate) fn node_start_row(node: &SyntaxNode) -> (r: usize)
    ensures
        r == syntax_start_row(node.grammar(), node.source(), node.path()),
{
    node.node.start_position().row
}

/// The row of `Node::end_position`.
#[verifier::external_body]
pub(crate) fn node_end_row(node: &SyntaxNode) -> (r: usize)
    ensures
        r == syntax_end_row(node.grammar(), node.source(), node.path()),
{
    node.node.end_position().row
}

/// `Node::descendant_count`: the node and all nodes below it.
#[verifier::external_body]
pub(crate) fn node_descendant_count(node: &SyntaxNode) -> (r: usize)
    ensures
        r == syntax_descendants(node.grammar(), node.source(), node.path()),
{
    node.node.descendant_count()
}

} // verus!
