//! Per-language extraction of symbols, containment edges, imports and calls.
//!
//! Each language walker decides, node by node, what a node contributes and
//! which symbol encloses its descendants (`visit`); `walk` applies that in
//! pre-order over the whole tree. `traverse` is the executable walk and is
//! proved to produce exactly `walk`.
pub mod call_names;
pub mod containment;
pub mod cpp;
pub mod go;
pub mod grammar;
pub mod java_kotlin;
pub mod javascript;
pub mod php;
pub mod python;
pub mod ruby;
pub mod rust;
pub mod shared;
pub mod swift;
pub mod syntax;

use crate::parser::grammar::{ts_parse, Grammar};
use crate::parser::syntax::{lemma_wf_children, wf, SyntaxNode};
use crate::text::ends_with;
use vstd::string::StringSliceAdditionalSpecFns;
use crate::types::ast::{
    append_analysis, call_views, edge_views, empty_analysis, import_views, node_views, AnalysisView,
    EdgeData, FileAnalysis, NodeData, RawCall, RawImport,
};
use vstd::prelude::*;
use vstd::utf8::encode_utf8;

verus! {

/// Largest source file, in bytes, that the indexer hands to a parser.
pub const MAX_PARSE_BYTES: u64 = 5242880;

/// Time budget of one parse, in microseconds.
pub const PARSE_TIMEOUT_MICROS: u64 = 10000000;

/// What one node contributes, and the symbol that encloses its descendants.
pub struct Visit {
    pub out: AnalysisView,
    pub active: Option<Seq<char>>,
}

/// The language walkers.
#[derive(Clone, Copy, Debug, PartialEq, Eq)]
pub enum Walker {
    Rust,
    Python,
    Go,
    JsTs,
    Cpp,
    Java,
    Kotlin,
    Ruby,
    Php,
    Swift,
}

/// The contribution of one node under walker `w`, given what the walk has
/// recorded before it (`acc`).
pub open spec fn visit(w: Walker, n: SyntaxNode, parent: Option<Seq<char>>, src: Seq<u8>, path: Seq<char>, acc: AnalysisView) -> Visit {
    match w {
        Walker::Rust => crate::parser::rust::rust_visit(n, parent, src, path),
        Walker::Python => crate::parser::python::python_visit(n, parent, src, path, acc),
        Walker::Go => crate::parser::go::go_visit(n, parent, src, path),
        Walker::JsTs => crate::parser::javascript::js_visit(n, parent, src, path),
        Walker::Cpp => crate::parser::cpp::cpp_visit(n, parent, src, path, acc),
        Walker::Java => crate::parser::java_kotlin::java_visit(n, parent, src, path),
        Walker::Kotlin => crate::parser::java_kotlin::kotlin_visit(n, parent, src, path, acc),
        Walker::Ruby => crate::parser::ruby::ruby_visit(n, parent, src, path),
        Walker::Php => crate::parser::php::php_visit(n, parent, src, path),
        Walker::Swift => crate::parser::swift::swift_visit(n, parent, src, path),
    }
}

/// The pre-order walk of `n` after `acc` was recorded: what has been
/// recorded once `n`'s own contribution and then the walks of its
/// children, each under the symbol that `n` leaves active, are added.
pub open spec fn walk(w: Walker, n: SyntaxNode, parent: Option<Seq<char>>, src: Seq<u8>, path: Seq<char>, acc: AnalysisView) -> AnalysisView
    decreases n, n.children@.len() + 1,
{
    let v = visit(w, n, parent, src, path, acc);
    walk_children(w, n, n.children@.len() as int, v.active, src, path, append_analysis(acc, v.out))
}

/// The walks of the first `k` children of `n`, in order, after `acc`.
pub open spec fn walk_children(w: Walker, n: SyntaxNode, k: int, parent: Option<Seq<char>>, src: Seq<u8>, path: Seq<char>, acc: AnalysisView) -> AnalysisView
    decreases n, if k < 0 { 0 } else { k },
{
    if k <= 0 || k > n.children@.len() {
        acc
    } else {
        walk(w, n.children@[k - 1], parent, src, path, walk_children(w, n, k - 1, parent, src, path, acc))
    }
}

/// Where a walk accumulates its output.
pub struct TraverseContext<'a> {
    pub source: &'a [u8],
    pub file_path: &'a str,
    pub nodes: Vec<NodeData>,
    pub edges: Vec<EdgeData>,
    pub imports: Vec<RawImport>,
    pub calls: Vec<RawCall>,
}

impl<'a> TraverseContext<'a> {
    /// The output accumulated so far.
    pub open spec fn out(&self) -> AnalysisView {
        AnalysisView {
            nodes: node_views(self.nodes@),
            edges: edge_views(self.edges@),
            imports: import_views(self.imports@),
            calls: call_views(self.calls@),
        }
    }

    /// Appends a contribution.
    pub fn add(&mut self, part: FileAnalysis)
        ensures
            final(self).out() == append_analysis(old(self).out(), part@),
            final(self).source == old(self).source,
            final(self).file_path == old(self).file_path,
    {
        let mut part = part;
        let ghost p = part@;
        self.nodes.append(&mut part.nodes);
        self.edges.append(&mut part.edges);
        self.imports.append(&mut part.imports);
        self.calls.append(&mut part.calls);
        proof {
            assert(self.out().nodes =~= old(self).out().nodes + p.nodes);
            assert(self.out().edges =~= old(self).out().edges + p.edges);
            assert(self.out().imports =~= old(self).out().imports + p.imports);
            assert(self.out().calls =~= old(self).out().calls + p.calls);
        }
    }
}

/// A copy of an optional string.
pub fn clone_opt(o: &Option<String>) -> (r: Option<String>)
    ensures
        opt_view(r) == opt_view(*o),
{
    match o {
        Some(s) => Some(s.clone()),
        None => None,
    }
}

/// The view of an optional string.
pub open spec fn opt_view(o: Option<String>) -> Option<Seq<char>> {
    match o {
        Some(s) => Some(s@),
        None => None,
    }
}

/// The contribution of one node, computed.
fn visit_node(w: Walker, n: &SyntaxNode, ctx: &TraverseContext, parent: &Option<String>) -> (r: (FileAnalysis, Option<String>))
    requires
        wf(*n, ctx.source@.len()),
    ensures
        r.0@ == visit(w, *n, opt_view(*parent), ctx.source@, ctx.file_path@, ctx.out()).out,
        opt_view(r.1) == visit(w, *n, opt_view(*parent), ctx.source@, ctx.file_path@, ctx.out()).active,
{
    match w {
        Walker::Rust => crate::parser::rust::rust_visit_node(n, ctx.source, ctx.file_path, parent),
        Walker::Python => crate::parser::python::python_visit_node(n, ctx.source, ctx.file_path, parent, &ctx.nodes),
        Walker::Go => crate::parser::go::go_visit_node(n, ctx.source, ctx.file_path, parent),
        Walker::JsTs => crate::parser::javascript::js_visit_node(n, ctx.source, ctx.file_path, parent),
        Walker::Cpp => crate::parser::cpp::cpp_visit_node(n, ctx.source, ctx.file_path, parent, &ctx.nodes),
        Walker::Java => crate::parser::java_kotlin::java_visit_node(n, ctx.source, ctx.file_path, parent),
        Walker::Kotlin => crate::parser::java_kotlin::kotlin_visit_node(n, ctx.source, ctx.file_path, parent, &ctx.nodes),
        Walker::Ruby => crate::parser::ruby::ruby_visit_node(n, ctx.source, ctx.file_path, parent),
        Walker::Php => crate::parser::php::php_visit_node(n, ctx.source, ctx.file_path, parent),
        Walker::Swift => crate::parser::swift::swift_visit_node(n, ctx.source, ctx.file_path, parent),
    }
}

/// Walks `node` and its descendants in pre-order, appending what each node
/// contributes to `ctx`.
pub fn traverse(w: Walker, node: &SyntaxNode, ctx: &mut TraverseContext, parent: Option<String>)
    requires
        wf(*node, old(ctx).source@.len()),
    ensures
        final(ctx).source == old(ctx).source,
        final(ctx).file_path == old(ctx).file_path,
        final(ctx).out() == walk(w, *node, opt_view(parent), old(ctx).source@, old(ctx).file_path@, old(ctx).out()),
    decreases node,
{
    let ghost src = ctx.source@;
    let ghost path = ctx.file_path@;
    let ghost start = ctx.out();
    let ghost src0 = ctx.source;
    let ghost path0 = ctx.file_path;
    let (part, active) = visit_node(w, node, ctx, &parent);
    let ghost v = visit(w, *node, opt_view(parent), src, path, start);
    ctx.add(part);
    proof {
        lemma_wf_children(*node, src.len());
    }
    let mut i: usize = 0;
    while i < node.children.len()
        invariant
            i <= node.children@.len(),
            ctx.source == src0,
            ctx.file_path == path0,
            src0@ == src,
            path0@ == path,
            forall|j: int| 0 <= j < node.children@.len() ==> wf(#[trigger] node.children@[j], src.len()),
            ctx.out() == walk_children(w, *node, i as int, opt_view(active), src, path, append_analysis(start, v.out)),
            opt_view(active) == v.active,
        decreases node.children.len() - i,
    {
        proof {
            assert(wf(node.children@[i as int], src.len()));
        }
        let child_parent = clone_opt(&active);
        traverse(w, &node.children[i], ctx, child_parent);
        i = i + 1;
    }
}

/// A language parser: turns a file's content into what it declares,
/// imports and calls.
pub trait LanguageParser {
    /// The language family this parser stands for.
    spec fn source_language(&self) -> SourceLanguage;

    /// Parses `content` as the file at `file_path`: the walk of the tree
    /// that the family's grammar yields for the path (see `parse_outcome`).
    fn parse(&self, content: &str, file_path: &str) -> (r: FileAnalysis)
        ensures
            parse_outcome(self.source_language(), content@, file_path@, r@),
    ;
}

/// The parsers, one per supported language family.
pub enum SourceLanguage {
    Rust(crate::parser::rust::RustParser),
    Python(crate::parser::python::PythonParser),
    Go(crate::parser::go::GoParser),
    JsTs(crate::parser::javascript::JsTsParser),
    Cpp(crate::parser::cpp::CppParser),
    JavaKotlin(crate::parser::java_kotlin::JavaKotlinParser),
    Ruby(crate::parser::ruby::RubyParser),
    Php(crate::parser::php::PhpParser),
    Swift(crate::parser::swift::SwiftParser),
}

/// What a parse that returned `tree` yields: the walk of the tree under
/// walker `w`, or nothing when there is no tree.
pub open spec fn tree_analysis(tree: Option<SyntaxNode>, w: Walker, content: Seq<char>, file_path: Seq<char>) -> AnalysisView {
    match tree {
        Some(t) => walk(w, t, None, encode_utf8(content), file_path, empty_analysis()),
        None => empty_analysis(),
    }
}

/// The grammar that `lang` parses a file at `file_path` with.
pub open spec fn grammar_for(lang: SourceLanguage, file_path: Seq<char>) -> Grammar {
    match lang {
        SourceLanguage::Rust(_) => Grammar::Rust,
        SourceLanguage::Python(_) => Grammar::Python,
        SourceLanguage::Go(_) => Grammar::Go,
        SourceLanguage::JsTs(_) => if ends_with(file_path, ".tsx"@) {
            Grammar::Tsx
        } else if ends_with(file_path, ".ts"@) {
            Grammar::TypeScript
        } else {
            Grammar::JavaScript
        },
        SourceLanguage::Cpp(_) => if ends_with(file_path, ".c"@) || ends_with(file_path, ".h"@) {
            Grammar::C
        } else {
            Grammar::Cpp
        },
        SourceLanguage::JavaKotlin(_) => if crate::parser::java_kotlin::is_kotlin_path(file_path) {
            Grammar::Kotlin
        } else {
            Grammar::Java
        },
        SourceLanguage::Ruby(_) => Grammar::Ruby,
        SourceLanguage::Php(_) => Grammar::Php,
        SourceLanguage::Swift(_) => Grammar::Swift,
    }
}

/// Whether `lang` parses under the parse time limit.
pub open spec fn time_limited(lang: SourceLanguage) -> bool {
    match lang {
        SourceLanguage::Python(_) | SourceLanguage::Ruby(_) | SourceLanguage::Swift(_) => true,
        _ => false,
    }
}

/// The analysis `lang` gives for `content` at `file_path` when its parse
/// finishes: the walk, under the path's walker, of the tree its grammar
/// yields.
pub open spec fn full_analysis(lang: SourceLanguage, content: Seq<char>, file_path: Seq<char>) -> AnalysisView {
    tree_analysis(
        ts_parse(grammar_for(lang, file_path), content),
        walker_for(lang, file_path),
        content,
        file_path,
    )
}

/// What parsing `content` of the file at `file_path` with `lang` yields:
/// the full analysis; for a parser with a time limit, nothing instead when
/// the parse does not finish in time.
pub open spec fn parse_outcome(lang: SourceLanguage, content: Seq<char>, file_path: Seq<char>, r: AnalysisView) -> bool {
    if time_limited(lang) {
        r == full_analysis(lang, content, file_path) || r == empty_analysis()
    } else {
        r == full_analysis(lang, content, file_path)
    }
}

/// The walker that `lang` uses for a file at `file_path`.
pub open spec fn walker_for(lang: SourceLanguage, file_path: Seq<char>) -> Walker {
    match lang {
        SourceLanguage::Rust(_) => Walker::Rust,
        SourceLanguage::Python(_) => Walker::Python,
        SourceLanguage::Go(_) => Walker::Go,
        SourceLanguage::JsTs(_) => Walker::JsTs,
        SourceLanguage::Cpp(_) => Walker::Cpp,
        SourceLanguage::JavaKotlin(_) => if crate::parser::java_kotlin::is_kotlin_path(file_path) {
            Walker::Kotlin
        } else {
            Walker::Java
        },
        SourceLanguage::Ruby(_) => Walker::Ruby,
        SourceLanguage::Php(_) => Walker::Php,
        SourceLanguage::Swift(_) => Walker::Swift,
    }
}

impl SourceLanguage {
    /// Parses `content` with this language's parser.
    pub fn parse(&self, content: &str, file_path: &str) -> (r: FileAnalysis)
        ensures
            parse_outcome(*self, content@, file_path@, r@),
    {
        match self {
            SourceLanguage::Rust(p) => p.parse_rust(content, file_path),
            SourceLanguage::Python(p) => p.parse_python(content, file_path),
            SourceLanguage::Go(p) => p.parse_go(content, file_path),
            SourceLanguage::JsTs(p) => p.parse_js_ts(content, file_path),
            SourceLanguage::Cpp(p) => p.parse_cpp(content, file_path),
            SourceLanguage::JavaKotlin(p) => p.parse_java_kotlin(content, file_path),
            SourceLanguage::Ruby(p) => p.parse_ruby(content, file_path),
            SourceLanguage::Php(p) => p.parse_php(content, file_path),
            SourceLanguage::Swift(p) => p.parse_swift(content, file_path),
        }
    }
}

/// The parser for a file extension, if the extension is supported.
pub open spec fn language_for_ext(ext: Seq<char>) -> Option<SourceLanguage> {
    if ext == "rs"@ {
        Some(SourceLanguage::Rust(crate::parser::rust::RustParser))
    } else if ext == "js"@ || ext == "jsx"@ || ext == "ts"@ || ext == "tsx"@ {
        Some(SourceLanguage::JsTs(crate::parser::javascript::JsTsParser))
    } else if ext == "go"@ {
        Some(SourceLanguage::Go(crate::parser::go::GoParser))
    } else if ext == "py"@ {
        Some(SourceLanguage::Python(crate::parser::python::PythonParser))
    } else if ext == "cpp"@ || ext == "cc"@ || ext == "cxx"@ || ext == "h"@ || ext == "hpp"@ || ext == "c"@ {
        Some(SourceLanguage::Cpp(crate::parser::cpp::CppParser))
    } else if ext == "java"@ || ext == "kt"@ || ext == "kts"@ {
        Some(SourceLanguage::JavaKotlin(crate::parser::java_kotlin::JavaKotlinParser))
    } else if ext == "rb"@ {
        Some(SourceLanguage::Ruby(crate::parser::ruby::RubyParser))
    } else if ext == "php"@ {
        Some(SourceLanguage::Php(crate::parser::php::PhpParser))
    } else if ext == "swift"@ {
        Some(SourceLanguage::Swift(crate::parser::swift::SwiftParser))
    } else {
        None
    }
}

/// The parser for a file extension: the single place that decides which
/// files are parseable.
pub fn language_from_ext(ext: &str) -> (r: Option<SourceLanguage>)
    ensures
        r == language_for_ext(ext@),
{
    if crate::text::str_eq(ext, "rs") {
        Some(SourceLanguage::Rust(crate::parser::rust::RustParser))
    } else if crate::text::str_eq(ext, "js") || crate::text::str_eq(ext, "jsx")
        || crate::text::str_eq(ext, "ts") || crate::text::str_eq(ext, "tsx") {
        Some(SourceLanguage::JsTs(crate::parser::javascript::JsTsParser))
    } else if crate::text::str_eq(ext, "go") {
        Some(SourceLanguage::Go(crate::parser::go::GoParser))
    } else if crate::text::str_eq(ext, "py") {
        Some(SourceLanguage::Python(crate::parser::python::PythonParser))
    } else if crate::text::str_eq(ext, "cpp") || crate::text::str_eq(ext, "cc") || crate::text::str_eq(ext, "cxx")
        || crate::text::str_eq(ext, "h") || crate::text::str_eq(ext, "hpp") || crate::text::str_eq(ext, "c") {
        Some(SourceLanguage::Cpp(crate::parser::cpp::CppParser))
    } else if crate::text::str_eq(ext, "java") || crate::text::str_eq(ext, "kt") || crate::text::str_eq(ext, "kts") {
        Some(SourceLanguage::JavaKotlin(crate::parser::java_kotlin::JavaKotlinParser))
    } else if crate::text::str_eq(ext, "rb") {
        Some(SourceLanguage::Ruby(crate::parser::ruby::RubyParser))
    } else if crate::text::str_eq(ext, "php") {
        Some(SourceLanguage::Php(crate::parser::php::PhpParser))
    } else if crate::text::str_eq(ext, "swift") {
        Some(SourceLanguage::Swift(crate::parser::swift::SwiftParser))
    } else {
        None
    }
}

/// The parser for a file path: the one for its extension, if it has one.
pub open spec fn language_for_path(path: Seq<char>) -> Option<SourceLanguage> {
    match crate::paths::path_extension(path) {
        Some(e) => language_for_ext(e),
        None => None,
    }
}

/// The parser for a file path, chosen by its extension.
pub fn language_from_path(path: &str) -> (r: Option<SourceLanguage>)
    ensures
        r == language_for_path(path@),
{
    match crate::paths::extension(path) {
        Some(e) => language_from_ext(e.as_str()),
        None => None,
    }
}

/// What parsing `content` as the file at `path` may yield: the outcome of
/// the parser for the path's extension (no extension counts as the empty
/// one), or nothing when no parser handles it.
pub open spec fn parse_file_outcome(path: Seq<char>, content: Seq<char>, r: AnalysisView) -> bool {
    let ext = match crate::paths::path_extension(path) {
        Some(e) => e,
        None => ""@,
    };
    match language_for_ext(ext) {
        Some(lang) => parse_outcome(lang, content, path, r),
        None => r == empty_analysis(),
    }
}

/// Parses files by their extension.
pub struct ASTParser;

impl ASTParser {
    /// Parses `content` as the file at `path`; a file whose extension no
    /// parser handles yields nothing.
    pub fn parse_file(path: &str, content: &str) -> (r: FileAnalysis)
        ensures
            parse_file_outcome(path@, content@, r@),
    {
        let ext = match crate::paths::extension(path) {
            Some(e) => e,
            None => crate::text::owned(""),
        };
        match language_from_ext(ext.as_str()) {
            Some(lang) => lang.parse(content, path),
            None => FileAnalysis::empty(),
        }
    }
}

/// Walks the whole tree rooted at `root` and returns what it yields.
pub fn analyze_tree(w: Walker, root: &SyntaxNode, source: &[u8], file_path: &str) -> (r: FileAnalysis)
    requires
        wf(*root, source@.len()),
    ensures
        r@ == walk(w, *root, None, source@, file_path@, empty_analysis()),
{
    let mut ctx = TraverseContext {
        source,
        file_path,
        nodes: Vec::new(),
        edges: Vec::new(),
        imports: Vec::new(),
        calls: Vec::new(),
    };
    proof {
        assert(ctx.out().nodes =~= seq![]);
        assert(ctx.out().edges =~= seq![]);
        assert(ctx.out().imports =~= seq![]);
        assert(ctx.out().calls =~= seq![]);
    }
    traverse(w, root, &mut ctx, None);
    proof {
        let a = walk(w, *root, None, source@, file_path@, empty_analysis());
        assert(ctx.out().nodes =~= a.nodes);
        assert(ctx.out().edges =~= a.edges);
        assert(ctx.out().imports =~= a.imports);
        assert(ctx.out().calls =~= a.calls);
    }
    FileAnalysis { nodes: ctx.nodes, edges: ctx.edges, imports: ctx.imports, calls: ctx.calls }
}

} // verus!
