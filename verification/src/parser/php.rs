//! The PHP walker.
use crate::parser::shared::{
    call_visit, call_visit_exec, decl_visit, decl_visit_exec, first_child_of_kind,
    first_child_of_kind_exec, imports_visit, imports_visit_exec, import_if_nonempty,
    import_if_nonempty_exec, lemma_child_wf, line_of, name_or_anonymous, name_or_anonymous_exec,
    no_visit, no_visit_exec, strip_end, strip_end_exec, strip_start, strip_start_exec, valid_name,
    valid_name_exec,
};
use crate::parser::syntax::{
    child_by_field, child_by_field_name, kind_is, lemma_wf_children, node_text_or, text_or, wf, SyntaxNode,
};
use crate::parser::{analyze_tree, opt_view, parse_outcome, LanguageParser, SourceLanguage, Visit, Walker};
use crate::text::views;
use crate::types::ast::FileAnalysis;
use crate::parser::grammar::{parse_source, Grammar, LoadedGrammar};
use vstd::prelude::*;

verus! {

/// The PHP parser.
pub struct PhpParser;

impl PhpParser {
    /// Parses PHP source: the walk of the tree that comes back, or nothing.
    pub fn parse_php(&self, content: &str, file_path: &str) -> (r: FileAnalysis)
        ensures
            parse_outcome(SourceLanguage::Php(*self), content@, file_path@, r@),
    {
        let grammar = LoadedGrammar::load(Grammar::Php);
        match parse_source(&grammar, content, None) {
            Some(t) => analyze_tree(Walker::Php, &t, content.as_bytes(), file_path),
            None => FileAnalysis::empty(),
        }
    }
}

impl LanguageParser for PhpParser {
    open spec fn source_language(&self) -> SourceLanguage {
        SourceLanguage::Php(*self)
    }

    fn parse(&self, content: &str, file_path: &str) -> FileAnalysis {
        self.parse_php(content, file_path)
    }
}

/// The string a literal holds: the `string_content` of a quoted string,
/// or the first literal found among a parenthesized expression's children.
pub open spec fn php_lit(n: SyntaxNode, src: Seq<u8>) -> Option<Seq<char>>
    decreases n, n.children@.len() + 1,
{
    if n.kind@ == "string"@ || n.kind@ == "encapsed_string"@ {
        match first_child_of_kind(n, "string_content"@) {
            Some(c) => Some(text_or(src, c, seq![])),
            None => None,
        }
    } else if n.kind@ == "parenthesized_expression"@ {
        php_lit_from(n, 0, src)
    } else {
        None
    }
}

/// The first literal among the children of `n` from position `i` on.
pub open spec fn php_lit_from(n: SyntaxNode, i: int, src: Seq<u8>) -> Option<Seq<char>>
    decreases n, if i < 0 { 0 } else if i > n.children@.len() { 0 } else { n.children@.len() - i },
{
    if i < 0 || i >= n.children@.len() {
        None
    } else {
        match php_lit(n.children@[i], src) {
            Some(p) => Some(p),
            None => php_lit_from(n, i + 1, src),
        }
    }
}

/// A kind of PHP expression that loads another file.
pub open spec fn is_php_require(k: Seq<char>) -> bool {
    k == "require_expression"@ || k == "include_expression"@ || k == "require_once_expression"@
        || k == "include_once_expression"@
}

/// What a require or include expression `e` contributes, reported at
/// `line`: the literal of its second child, when non-empty.
pub open spec fn php_require_visit(e: SyntaxNode, parent: Option<Seq<char>>, src: Seq<u8>, line: int) -> Visit {
    if e.children@.len() > 1 {
        match php_lit(e.children@[1], src) {
            Some(p) => import_if_nonempty(parent, p, line),
            None => no_visit(parent),
        }
    } else {
        no_visit(parent)
    }
}

/// The namespaces a `use` declaration imports: the texts of its
/// `namespace_use_clause` children from position `i` on, without
/// surrounding `;` and spaces, when non-empty.
pub open spec fn php_use_from(cs: Seq<SyntaxNode>, src: Seq<u8>, i: int) -> Seq<Seq<char>>
    decreases cs.len() - i,
{
    if i < 0 || i >= cs.len() {
        seq![]
    } else {
        let t = strip_end(strip_start(text_or(src, cs[i], seq![]), "; "@), "; "@);
        let head = if cs[i].kind@ == "namespace_use_clause"@ && t.len() > 0 { seq![t] } else { seq![] };
        head + php_use_from(cs, src, i + 1)
    }
}

/// What a call contributes when the name under `field` is made of
/// letters, digits and `_`.
pub open spec fn php_named_call(n: SyntaxNode, parent: Option<Seq<char>>, src: Seq<u8>, field: Seq<char>, is_method: bool) -> Visit {
    match child_by_field(n, field) {
        Some(f) => {
            let name = text_or(src, f, seq![]);
            if valid_name(name, "_"@) {
                call_visit(parent, name, line_of(n), is_method)
            } else {
                no_visit(parent)
            }
        },
        None => no_visit(parent),
    }
}

/// The kind label of a PHP declaration kind, if it is one.
pub open spec fn php_decl_label(k: Seq<char>) -> Option<Seq<char>> {
    if k == "function_definition"@ {
        Some("Function"@)
    } else if k == "method_declaration"@ {
        Some("Method"@)
    } else if k == "class_declaration"@ {
        Some("Class"@)
    } else if k == "interface_declaration"@ {
        Some("Interface"@)
    } else if k == "trait_declaration"@ {
        Some("Trait"@)
    } else {
        None
    }
}

/// What a PHP syntax node contributes. An expression statement whose first
/// child is a require reports that require as well (so it is reported
/// again when the walk reaches the require itself).
pub open spec fn php_visit(n: SyntaxNode, parent: Option<Seq<char>>, src: Seq<u8>, path: Seq<char>) -> Visit {
    let k = n.kind@;
    if k == "namespace_use_declaration"@ {
        imports_visit(parent, php_use_from(n.children@, src, 0), line_of(n))
    } else if is_php_require(k) {
        php_require_visit(n, parent, src, line_of(n))
    } else if k == "expression_statement"@ {
        if n.children@.len() > 0 && is_php_require(n.children@[0].kind@) {
            php_require_visit(n.children@[0], parent, src, line_of(n))
        } else {
            no_visit(parent)
        }
    } else if k == "function_call_expression"@ {
        php_named_call(n, parent, src, "function"@, false)
    } else if k == "member_call_expression"@ || k == "scoped_call_expression"@ {
        php_named_call(n, parent, src, "name"@, true)
    } else {
        match php_decl_label(k) {
            Some(label) => decl_visit(n, parent, path, name_or_anonymous(n, src), label, src),
            None => no_visit(parent),
        }
    }
}

fn php_lit_exec(n: &SyntaxNode, src: &[u8]) -> (r: Option<Vec<char>>)
    requires
        wf(*n, src@.len()),
    ensures
        r matches Some(p) ==> php_lit(*n, src@) == Some(p@),
        r is None ==> php_lit(*n, src@) is None,
    decreases n,
{
    proof {
        reveal_strlit("");
        assert(""@ =~= Seq::<char>::empty());
        lemma_wf_children(*n, src@.len());
    }
    if kind_is(n, "string") || kind_is(n, "encapsed_string") {
        match first_child_of_kind_exec(n, "string_content") {
            Some(c) => {
                proof {
                    lemma_child_wf(*n, *c, src@.len());
                }
                Some(node_text_or(src, c, ""))
            },
            None => None,
        }
    } else if kind_is(n, "parenthesized_expression") {
        let mut i: usize = 0;
        while i < n.children.len()
            invariant
                i <= n.children@.len(),
                n.kind@ == "parenthesized_expression"@,
                forall|j: int| 0 <= j < n.children@.len() ==> wf(#[trigger] n.children@[j], src@.len()),
                php_lit(*n, src@) == php_lit_from(*n, i as int, src@),
            decreases n.children.len() - i,
        {
            proof {
                assert(wf(n.children@[i as int], src@.len()));
            }
            match php_lit_exec(&n.children[i], src) {
                Some(p) => {
                    return Some(p);
                },
                None => {},
            }
            i = i + 1;
        }
        None
    } else {
        None
    }
}

fn php_require_visit_exec(e: &SyntaxNode, src: &[u8], parent: &Option<String>, line: usize) -> (r: (FileAnalysis, Option<String>))
    requires
        wf(*e, src@.len()),
    ensures
        r.0@ == php_require_visit(*e, opt_view(*parent), src@, line as int).out,
        opt_view(r.1) == php_require_visit(*e, opt_view(*parent), src@, line as int).active,
{
    proof {
        lemma_wf_children(*e, src@.len());
    }
    if e.children.len() > 1 {
        proof {
            assert(wf(e.children@[1], src@.len()));
        }
        match php_lit_exec(&e.children[1], src) {
            Some(p) => import_if_nonempty_exec(parent, p, line),
            None => no_visit_exec(parent),
        }
    } else {
        no_visit_exec(parent)
    }
}

fn php_use_exec(n: &SyntaxNode, src: &[u8]) -> (r: Vec<Vec<char>>)
    requires
        wf(*n, src@.len()),
    ensures
        views(r@) == php_use_from(n.children@, src@, 0),
{
    proof {
        lemma_wf_children(*n, src@.len());
        reveal_strlit("");
        assert(""@ =~= Seq::<char>::empty());
    }
    let ghost cs = n.children@;
    let mut out: Vec<Vec<char>> = Vec::new();
    let mut i: usize = 0;
    while i < n.children.len()
        invariant
            i <= cs.len(),
            cs == n.children@,
            ""@ =~= Seq::<char>::empty(),
            forall|j: int| 0 <= j < cs.len() ==> wf(#[trigger] cs[j], src@.len()),
            views(out@) + php_use_from(cs, src@, i as int) == php_use_from(cs, src@, 0),
        decreases cs.len() - i,
    {
        let c = &n.children[i];
        proof {
            assert(wf(cs[i as int], src@.len()));
        }
        let raw = node_text_or(src, c, "");
        let a = strip_start_exec(raw.as_slice(), "; ");
        let t = strip_end_exec(a.as_slice(), "; ");
        let ghost before = views(out@);
        if kind_is(c, "namespace_use_clause") && t.len() > 0 {
            out.push(t);
            proof {
                assert(views(out@) =~= before + seq![t@]);
            }
        }
        proof {
            assert(views(out@) + php_use_from(cs, src@, i + 1) =~= before + php_use_from(cs, src@, i as int));
        }
        i = i + 1;
    }
    proof {
        assert(php_use_from(cs, src@, i as int) =~= seq![]);
        assert(views(out@) =~= views(out@) + php_use_from(cs, src@, i as int));
    }
    out
}

fn php_named_call_exec(n: &SyntaxNode, src: &[u8], parent: &Option<String>, field: &str, is_method: bool) -> (r: (FileAnalysis, Option<String>))
    requires
        wf(*n, src@.len()),
    ensures
        r.0@ == php_named_call(*n, opt_view(*parent), src@, field@, is_method).out,
        opt_view(r.1) == php_named_call(*n, opt_view(*parent), src@, field@, is_method).active,
{
    proof {
        reveal_strlit("");
        assert(""@ =~= Seq::<char>::empty());
    }
    match child_by_field_name(n, field) {
        Some(f) => {
            proof {
                lemma_child_wf(*n, *f, src@.len());
            }
            let name = node_text_or(src, f, "");
            if valid_name_exec(name.as_slice(), "_") {
                call_visit_exec(parent, name.as_slice(), n.start_row + 1, is_method)
            } else {
                no_visit_exec(parent)
            }
        },
        None => no_visit_exec(parent),
    }
}

fn is_php_require_exec(n: &SyntaxNode) -> (r: bool)
    ensures
        r == is_php_require(n.kind@),
{
    kind_is(n, "require_expression") || kind_is(n, "include_expression") || kind_is(n, "require_once_expression")
        || kind_is(n, "include_once_expression")
}

/// What a PHP syntax node contributes, computed.
pub fn php_visit_node(n: &SyntaxNode, src: &[u8], path: &str, parent: &Option<String>) -> (r: (FileAnalysis, Option<String>))
    requires
        wf(*n, src@.len()),
    ensures
        r.0@ == php_visit(*n, opt_view(*parent), src@, path@).out,
        opt_view(r.1) == php_visit(*n, opt_view(*parent), src@, path@).active,
{
    proof {
        lemma_wf_children(*n, src@.len());
    }
    if kind_is(n, "namespace_use_declaration") {
        let paths = php_use_exec(n, src);
        imports_visit_exec(parent, &paths, n.start_row + 1)
    } else if is_php_require_exec(n) {
        php_require_visit_exec(n, src, parent, n.start_row + 1)
    } else if kind_is(n, "expression_statement") {
        if n.children.len() > 0 && is_php_require_exec(&n.children[0]) {
            proof {
                assert(wf(n.children@[0], src@.len()));
            }
            php_require_visit_exec(&n.children[0], src, parent, n.start_row + 1)
        } else {
            no_visit_exec(parent)
        }
    } else if kind_is(n, "function_call_expression") {
        php_named_call_exec(n, src, parent, "function", false)
    } else if kind_is(n, "member_call_expression") || kind_is(n, "scoped_call_expression") {
        php_named_call_exec(n, src, parent, "name", true)
    } else {
        let label: &str = if kind_is(n, "function_definition") {
            "Function"
        } else if kind_is(n, "method_declaration") {
            "Method"
        } else if kind_is(n, "class_declaration") {
            "Class"
        } else if kind_is(n, "interface_declaration") {
            "Interface"
        } else if kind_is(n, "trait_declaration") {
            "Trait"
        } else {
            return no_visit_exec(parent);
        };
        let name = name_or_anonymous_exec(n, src);
        decl_visit_exec(n, parent, path, name.as_slice(), label, src)
    }
}

} // verus!
