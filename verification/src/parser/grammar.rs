//! The tree-sitter grammars and the one call that parses with them.
//!
//! A `LoadedGrammar` pairs a grammar crate's `tree_sitter::Language` with the
//! `Grammar` it was loaded for, so that contracts can say which grammar a
//! parse ran with. `parse_source` turns the tree that tree-sitter builds into
//! a plain `SyntaxNode` tree; what that tree is for given content is named
//! by `ts_parse`.
use crate::parser::syntax::{wf, SyntaxNode};
use vstd::prelude::*;
use vstd::string::StringSliceAdditionalSpecFns;

verus! {

/// The grammars the parsers use.
#[derive(Clone, Copy, Debug, PartialEq, Eq)]
pub enum Grammar {
    Rust,
    Python,
    Go,
    JavaScript,
    TypeScript,
    Tsx,
    C,
    Cpp,
    Java,
    Kotlin,
    Ruby,
    Php,
    Swift,
}

#[verifier::external_type_specification]
#[verifier::external_body]
pub struct ExLanguage(tree_sitter::Language);

#[verifier::external_type_specification]
#[verifier::external_body]
pub struct ExNode<'tree>(tree_sitter::Node<'tree>);

/// A grammar crate's language, together with the grammar it stands for.
/// Only the grammar wrappers below build one, each pairing its crate's
/// language with its own tag; the view is that tag.
pub struct LoadedGrammar {
    grammar: Grammar,
    language: tree_sitter::Language,
}

impl View for LoadedGrammar {
    type V = Grammar;

    closed spec fn view(&self) -> Grammar {
        self.grammar
    }
}

/// The tree tree-sitter builds for `content` in grammar `g` when the parse
/// runs without a time limit, as a plain tree; `None` when tree-sitter
/// gives no tree (a grammar whose ABI version this tree-sitter cannot
/// load).
pub uninterp spec fn ts_parse(g: Grammar, content: Seq<char>) -> Option<SyntaxNode>;

/// The Rust grammar: `tree_sitter_rust::language`, tagged `Grammar::Rust`.
#[verifier::external_body]
fn rust_grammar() -> (r: LoadedGrammar)
    ensures
        r@ == Grammar::Rust,
{
    LoadedGrammar { grammar: Grammar::Rust, language: tree_sitter_rust::language() }
}

/// The Python grammar: `tree_sitter_python::language`, tagged `Grammar::Python`.
#[verifier::external_body]
fn python_grammar() -> (r: LoadedGrammar)
    ensures
        r@ == Grammar::Python,
{
    LoadedGrammar { grammar: Grammar::Python, language: tree_sitter_python::language() }
}

/// The Go grammar: `tree_sitter_go::language`, tagged `Grammar::Go`.
#[verifier::external_body]
fn go_grammar() -> (r: LoadedGrammar)
    ensures
        r@ == Grammar::Go,
{
    LoadedGrammar { grammar: Grammar::Go, language: tree_sitter_go::language() }
}

/// The JavaScript grammar: `tree_sitter_javascript::language`, tagged `Grammar::JavaScript`.
#[verifier::external_body]
fn javascript_grammar() -> (r: LoadedGrammar)
    ensures
        r@ == Grammar::JavaScript,
{
    LoadedGrammar { grammar: Grammar::JavaScript, language: tree_sitter_javascript::language() }
}

/// The TypeScript grammar: `tree_sitter_typescript::language_typescript`, tagged `Grammar::TypeScript`.
#[verifier::external_body]
fn typescript_grammar() -> (r: LoadedGrammar)
    ensures
        r@ == Grammar::TypeScript,
{
    LoadedGrammar { grammar: Grammar::TypeScript, language: tree_sitter_typescript::language_typescript() }
}

/// The TSX grammar: `tree_sitter_typescript::language_tsx`, tagged `Grammar::Tsx`.
#[verifier::external_body]
fn tsx_grammar() -> (r: LoadedGrammar)
    ensures
        r@ == Grammar::Tsx,
{
    LoadedGrammar { grammar: Grammar::Tsx, language: tree_sitter_typescript::language_tsx() }
}

/// The C grammar: `tree_sitter_c::language`, tagged `Grammar::C`.
#[verifier::external_body]
fn c_grammar() -> (r: LoadedGrammar)
    ensures
        r@ == Grammar::C,
{
    LoadedGrammar { grammar: Grammar::C, language: tree_sitter_c::language() }
}

/// The C++ grammar: `tree_sitter_cpp::language`, tagged `Grammar::Cpp`.
#[verifier::external_body]
fn cpp_grammar() -> (r: LoadedGrammar)
    ensures
        r@ == Grammar::Cpp,
{
    LoadedGrammar { grammar: Grammar::Cpp, language: tree_sitter_cpp::language() }
}

/// The Java grammar: `tree_sitter_java::language`, tagged `Grammar::Java`.
#[verifier::external_body]
fn java_grammar() -> (r: LoadedGrammar)
    ensures
        r@ == Grammar::Java,
{
    LoadedGrammar { grammar: Grammar::Java, language: tree_sitter_java::language() }
}

/// The Kotlin grammar: `tree_sitter_kotlin::language`, tagged `Grammar::Kotlin`.
#[verifier::external_body]
fn kotlin_grammar() -> (r: LoadedGrammar)
    ensures
        r@ == Grammar::Kotlin,
{
    LoadedGrammar { grammar: Grammar::Kotlin, language: tree_sitter_kotlin::language() }
}

/// The Ruby grammar: `tree_sitter_ruby::language`, tagged `Grammar::Ruby`.
#[verifier::external_body]
fn ruby_grammar() -> (r: LoadedGrammar)
    ensures
        r@ == Grammar::Ruby,
{
    LoadedGrammar { grammar: Grammar::Ruby, language: tree_sitter_ruby::language() }
}

/// The PHP grammar: `tree_sitter_php::language_php`, tagged `Grammar::Php`.
#[verifier::external_body]
fn php_grammar() -> (r: LoadedGrammar)
    ensures
        r@ == Grammar::Php,
{
    LoadedGrammar { grammar: Grammar::Php, language: tree_sitter_php::language_php() }
}

/// The Swift grammar: `tree_sitter_swift::language`, tagged `Grammar::Swift`.
#[verifier::external_body]
fn swift_grammar() -> (r: LoadedGrammar)
    ensures
        r@ == Grammar::Swift,
{
    LoadedGrammar { grammar: Grammar::Swift, language: tree_sitter_swift::language() }
}

impl LoadedGrammar {
    /// Loads the language of grammar `g` from its grammar crate.
    pub(crate) fn load(g: Grammar) -> (r: LoadedGrammar)
        ensures
            r@ == g,
    {
        match g {
            Grammar::Rust => rust_grammar(),
            Grammar::Python => python_grammar(),
            Grammar::Go => go_grammar(),
            Grammar::JavaScript => javascript_grammar(),
            Grammar::TypeScript => typescript_grammar(),
            Grammar::Tsx => tsx_grammar(),
            Grammar::C => c_grammar(),
            Grammar::Cpp => cpp_grammar(),
            Grammar::Java => java_grammar(),
            Grammar::Kotlin => kotlin_grammar(),
            Grammar::Ruby => ruby_grammar(),
            Grammar::Php => php_grammar(),
            Grammar::Swift => swift_grammar(),
        }
    }
}

/// Builds the plain tree for a tree-sitter node and its descendants,
/// recording each child's field name as the tree cursor reports it.
/// Nothing is claimed of the result here; `parse_source` states what holds
/// of the whole tree.
#[verifier::external_body]
fn syntax_from_node(node: tree_sitter::Node, field: Option<&'static str>) -> SyntaxNode {
    let mut children = Vec::new();
    let mut cursor = node.walk();
    if cursor.goto_first_child() {
        loop {
            children.push(syntax_from_node(cursor.node(), cursor.field_name()));
            if !cursor.goto_next_sibling() {
                break;
            }
        }
    }
    let (s, e) = (node.start_position(), node.end_position());
    SyntaxNode { kind: node.kind().to_owned(), field: field.map(|f| f.to_owned()),
        start_byte: node.start_byte(), end_byte: node.end_byte(), start_row: s.row,
        start_col: s.column, end_row: e.row, end_col: e.column, children }
}

/// Parses `content` with tree-sitter in the loaded grammar (`Parser::new`,
/// `set_language`, `set_timeout_micros` when `timeout_micros` is given,
/// `parse`) and returns the plain tree. Claimed: without a time limit the
/// result is `ts_parse` of the grammar and the content; with one, a tree
/// that comes back is that same tree (a time limit only stops a parse, it
/// does not change what a finished parse builds); and a tree's byte ranges
/// lie within `content` and its rows and columns are no larger than the
/// content's length. Whether a parse under a time limit finishes depends on
/// time, and is not claimed.
#[verifier::external_body]
pub(crate) fn parse_source(grammar: &LoadedGrammar, content: &str, timeout_micros: Option<u64>) -> (r: Option<SyntaxNode>)
    ensures
        timeout_micros is None ==> r == ts_parse(grammar@, content@),
        r matches Some(t) ==> ts_parse(grammar@, content@) == Some(t),
        r matches Some(t) ==> wf(t, content.spec_bytes().len()),
{
    let mut parser = tree_sitter::Parser::new();
    parser.set_language(&grammar.language).ok()?;
    if let Some(t) = timeout_micros { parser.set_timeout_micros(t); }
    let tree = parser.parse(content, None)?;
    Some(syntax_from_node(tree.root_node(), None))
}

} // verus!
