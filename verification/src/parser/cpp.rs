//! The C and C++ walker.
use crate::parser::rust::{rust_callee_name, rust_callee_name_exec};
use crate::parser::shared::{
    call_visit, call_visit_exec, decl_visit, decl_visit_exec, first_child_of_kind,
    first_child_of_kind_exec, import_if_nonempty, import_if_nonempty_exec, lemma_child_wf, line_of,
    name_or_anonymous, name_or_anonymous_exec, no_visit, no_visit_exec, parent_is_kind,
    parent_is_kind_exec, skip_chars, strip_end, strip_end_exec, strip_start, strip_start_exec,
    sub_chars, valid_name, valid_name_exec,
};
use crate::parser::syntax::{
    child_by_field, child_by_field_name, kind_is, lemma_wf_children, node_text_or, text_or, wf, SyntaxNode,
};
use crate::parser::{
    analyze_tree, clone_opt, opt_view, parse_outcome, LanguageParser, SourceLanguage, Visit, Walker,
};
use crate::text::{ends_with_chars, push_all, push_str, rfind, rfind_chars, string_from_chars, to_chars};
use crate::types::ast::{node_views, AnalysisView, FileAnalysis, NodeData};
use crate::parser::grammar::{parse_source, Grammar, LoadedGrammar};
use vstd::prelude::*;

verus! {

/// The C and C++ parser.
pub struct CppParser;

impl CppParser {
    /// Parses C or C++ source, with the C grammar for a `.c` or `.h` path and
    /// the C++ grammar otherwise: the walk of the tree that comes back, or
    /// nothing.
    pub fn parse_cpp(&self, content: &str, file_path: &str) -> (r: FileAnalysis)
        ensures
            parse_outcome(SourceLanguage::Cpp(*self), content@, file_path@, r@),
    {
        let path = to_chars(file_path);
        let c_ext = to_chars(".c");
        let h_ext = to_chars(".h");
        let grammar = if ends_with_chars(path.as_slice(), c_ext.as_slice()) || ends_with_chars(
            path.as_slice(),
            h_ext.as_slice(),
        ) {
            LoadedGrammar::load(Grammar::C)
        } else {
            LoadedGrammar::load(Grammar::Cpp)
        };
        match parse_source(&grammar, content, None) {
            Some(t) => analyze_tree(Walker::Cpp, &t, content.as_bytes(), file_path),
            None => FileAnalysis::empty(),
        }
    }
}

impl LanguageParser for CppParser {
    open spec fn source_language(&self) -> SourceLanguage {
        SourceLanguage::Cpp(*self)
    }

    fn parse(&self, content: &str, file_path: &str) -> FileAnalysis {
        self.parse_cpp(content, file_path)
    }
}

/// What a `#include` contributes: its second child's text without `<`,
/// `>` and `"` around it, when non-empty.
pub open spec fn cpp_include_visit(n: SyntaxNode, parent: Option<Seq<char>>, src: Seq<u8>) -> Visit {
    if n.children@.len() > 1 {
        let t = strip_end(strip_start(text_or(src, n.children@[1], seq![]), "<>\""@), "<>\""@);
        import_if_nonempty(parent, t, line_of(n))
    } else {
        no_visit(parent)
    }
}

/// What a C++ `call_expression` contributes: a call through a field is a
/// method call; through a pointer expression, its first `field` child is
/// recorded as a method call as it stands; otherwise the last `::` segment
/// of the callee is a plain call. Checked names are made of letters,
/// digits and `_`.
pub open spec fn cpp_call_visit(n: SyntaxNode, parent: Option<Seq<char>>, src: Seq<u8>) -> Visit {
    match child_by_field(n, "function"@) {
        Some(f) => if f.kind@ == "field_expression"@ {
            match child_by_field(f, "field"@) {
                Some(fld) => {
                    let m = text_or(src, fld, seq![]);
                    if valid_name(m, "_"@) {
                        call_visit(parent, m, line_of(n), true)
                    } else {
                        no_visit(parent)
                    }
                },
                None => no_visit(parent),
            }
        } else if f.kind@ == "pointer_expression"@ {
            match first_child_of_kind(f, "field"@) {
                Some(c) => call_visit(parent, text_or(src, c, seq![]), line_of(n), true),
                None => no_visit(parent),
            }
        } else {
            let name = rust_callee_name(text_or(src, f, seq![]));
            if valid_name(name, "_"@) {
                call_visit(parent, name, line_of(n), false)
            } else {
                no_visit(parent)
            }
        },
        None => no_visit(parent),
    }
}

/// The first `function_declarator` down the chain of first children that
/// starts at `d`.
pub open spec fn cpp_find_fd(d: SyntaxNode) -> Option<SyntaxNode>
    decreases d,
{
    if d.kind@ == "function_declarator"@ {
        Some(d)
    } else if d.children@.len() > 0 {
        cpp_find_fd(d.children@[0])
    } else {
        None
    }
}

/// The name of a function definition and the symbol it is recorded under:
/// a qualified name `A::B::f` puts `f` under `file::A::B`; otherwise the
/// declarator's text under the enclosing symbol; `anonymous` when there is
/// no declarator.
pub open spec fn cpp_fn_target(n: SyntaxNode, parent: Option<Seq<char>>, src: Seq<u8>, path: Seq<char>) -> (Seq<char>, Option<Seq<char>>) {
    match child_by_field(n, "declarator"@) {
        Some(d) => match cpp_find_fd(d) {
            Some(fd) => match child_by_field(fd, "declarator"@) {
                Some(decl) => if decl.kind@ == "qualified_identifier"@ {
                    let q = text_or(src, decl, seq![]);
                    match rfind(q, "::"@) {
                        Some(i) => (q.skip(i + 2), Some(path + "::"@ + q.take(i))),
                        None => (q, parent),
                    }
                } else {
                    (text_or(src, decl, "anonymous"@), parent)
                },
                None => ("anonymous"@, parent),
            },
            None => ("anonymous"@, parent),
        },
        None => ("anonymous"@, parent),
    }
}

/// The kind label of a C++ type or namespace declaration kind, if it is one.
pub open spec fn cpp_decl_label(k: Seq<char>) -> Option<Seq<char>> {
    if k == "class_specifier"@ {
        Some("Class"@)
    } else if k == "struct_specifier"@ {
        Some("Struct"@)
    } else if k == "namespace_definition"@ {
        Some("Namespace"@)
    } else {
        None
    }
}

/// What a C or C++ syntax node contributes, given the records so far: a
/// function recorded under a recorded class or struct is a method.
pub open spec fn cpp_visit(n: SyntaxNode, parent: Option<Seq<char>>, src: Seq<u8>, path: Seq<char>, acc: AnalysisView) -> Visit {
    let k = n.kind@;
    if k == "preproc_include"@ {
        cpp_include_visit(n, parent, src)
    } else if k == "call_expression"@ {
        cpp_call_visit(n, parent, src)
    } else if k == "function_definition"@ {
        let (name, owner) = cpp_fn_target(n, parent, src, path);
        let label = if parent_is_kind(acc.nodes, owner, "Class"@) || parent_is_kind(acc.nodes, owner, "Struct"@) {
            "Method"@
        } else {
            "Function"@
        };
        decl_visit(n, owner, path, name, label, src)
    } else {
        match cpp_decl_label(k) {
            Some(label) => decl_visit(n, parent, path, name_or_anonymous(n, src), label, src),
            None => no_visit(parent),
        }
    }
}

proof fn lemma_find_fd_wf(d: SyntaxNode, len: nat)
    requires
        wf(d, len),
    ensures
        cpp_find_fd(d) matches Some(x) ==> wf(x, len),
    decreases d,
{
    if d.kind@ != "function_declarator"@ && d.children@.len() > 0 {
        lemma_wf_children(d, len);
        lemma_find_fd_wf(d.children@[0], len);
    }
}

fn cpp_find_fd_exec(d: &SyntaxNode) -> (r: Option<&SyntaxNode>)
    ensures
        r matches Some(x) ==> cpp_find_fd(*d) == Some(*x),
        r is None ==> cpp_find_fd(*d) is None,
    decreases d,
{
    if kind_is(d, "function_declarator") {
        Some(d)
    } else if d.children.len() > 0 {
        cpp_find_fd_exec(&d.children[0])
    } else {
        None
    }
}

fn cpp_include_visit_exec(n: &SyntaxNode, src: &[u8], parent: &Option<String>) -> (r: (FileAnalysis, Option<String>))
    requires
        wf(*n, src@.len()),
    ensures
        r.0@ == cpp_include_visit(*n, opt_view(*parent), src@).out,
        opt_view(r.1) == cpp_include_visit(*n, opt_view(*parent), src@).active,
{
    proof {
        reveal_strlit("");
        assert(""@ =~= Seq::<char>::empty());
        lemma_wf_children(*n, src@.len());
    }
    if n.children.len() > 1 {
        proof {
            assert(wf(n.children@[1], src@.len()));
        }
        let raw = node_text_or(src, &n.children[1], "");
        let a = strip_start_exec(raw.as_slice(), "<>\"");
        let t = strip_end_exec(a.as_slice(), "<>\"");
        import_if_nonempty_exec(parent, t, n.start_row + 1)
    } else {
        no_visit_exec(parent)
    }
}

fn cpp_call_visit_exec(n: &SyntaxNode, src: &[u8], parent: &Option<String>) -> (r: (FileAnalysis, Option<String>))
    requires
        wf(*n, src@.len()),
    ensures
        r.0@ == cpp_call_visit(*n, opt_view(*parent), src@).out,
        opt_view(r.1) == cpp_call_visit(*n, opt_view(*parent), src@).active,
{
    proof {
        reveal_strlit("");
        assert(""@ =~= Seq::<char>::empty());
    }
    match child_by_field_name(n, "function") {
        Some(f) => {
            proof {
                lemma_child_wf(*n, *f, src@.len());
            }
            if kind_is(f, "field_expression") {
                match child_by_field_name(f, "field") {
                    Some(fld) => {
                        proof {
                            lemma_child_wf(*f, *fld, src@.len());
                        }
                        let m = node_text_or(src, fld, "");
                        if valid_name_exec(m.as_slice(), "_") {
                            call_visit_exec(parent, m.as_slice(), n.start_row + 1, true)
                        } else {
                            no_visit_exec(parent)
                        }
                    },
                    None => no_visit_exec(parent),
                }
            } else if kind_is(f, "pointer_expression") {
                match first_child_of_kind_exec(f, "field") {
                    Some(c) => {
                        proof {
                            lemma_child_wf(*f, *c, src@.len());
                        }
                        let m = node_text_or(src, c, "");
                        call_visit_exec(parent, m.as_slice(), n.start_row + 1, true)
                    },
                    None => no_visit_exec(parent),
                }
            } else {
                let raw = node_text_or(src, f, "");
                let name = rust_callee_name_exec(raw);
                if valid_name_exec(name.as_slice(), "_") {
                    call_visit_exec(parent, name.as_slice(), n.start_row + 1, false)
                } else {
                    no_visit_exec(parent)
                }
            }
        },
        None => no_visit_exec(parent),
    }
}

fn cpp_fn_target_exec(n: &SyntaxNode, parent: &Option<String>, src: &[u8], path: &str) -> (r: (Vec<char>, Option<String>))
    requires
        wf(*n, src@.len()),
    ensures
        r.0@ == cpp_fn_target(*n, opt_view(*parent), src@, path@).0,
        opt_view(r.1) == cpp_fn_target(*n, opt_view(*parent), src@, path@).1,
{
    proof {
        reveal_strlit("");
        assert(""@ =~= Seq::<char>::empty());
        reveal_strlit("::");
    }
    match child_by_field_name(n, "declarator") {
        Some(d) => {
            proof {
                lemma_child_wf(*n, *d, src@.len());
                lemma_find_fd_wf(*d, src@.len());
            }
            match cpp_find_fd_exec(d) {
                Some(fd) => match child_by_field_name(fd, "declarator") {
                    Some(decl) => {
                        proof {
                            lemma_child_wf(*fd, *decl, src@.len());
                        }
                        if kind_is(decl, "qualified_identifier") {
                            let q = node_text_or(src, decl, "");
                            let sep = to_chars("::");
                            proof {
                                assert(sep@.len() == 2);
                            }
                            match rfind_chars(q.as_slice(), sep.as_slice()) {
                                Some(i) => {
                                    let ql = q.len();
                                    proof {
                                        assert(i + sep@.len() <= q@.len());
                                        assert(sep@.len() == 2);
                                        assert(q@.len() == ql);
                                    }
                                    let method = skip_chars(q.as_slice(), i + 2);
                                    let class_part = sub_chars(q.as_slice(), 0, i);
                                    proof {
                                        assert(q@.subrange(0, i as int) =~= q@.take(i as int));
                                    }
                                    let mut owner = to_chars(path);
                                    push_str(&mut owner, "::");
                                    push_all(&mut owner, class_part.as_slice());
                                    (method, Some(string_from_chars(owner.as_slice())))
                                },
                                None => (q, clone_opt(parent)),
                            }
                        } else {
                            (node_text_or(src, decl, "anonymous"), clone_opt(parent))
                        }
                    },
                    None => (to_chars("anonymous"), clone_opt(parent)),
                },
                None => (to_chars("anonymous"), clone_opt(parent)),
            }
        },
        None => (to_chars("anonymous"), clone_opt(parent)),
    }
}

/// What a C or C++ syntax node contributes, computed from the node and the
/// records so far.
pub fn cpp_visit_node(n: &SyntaxNode, src: &[u8], path: &str, parent: &Option<String>, nodes: &Vec<NodeData>) -> (r: (FileAnalysis, Option<String>))
    requires
        wf(*n, src@.len()),
    ensures
        forall|acc: AnalysisView| acc.nodes == node_views(nodes@) ==> {
            &&& r.0@ == cpp_visit(*n, opt_view(*parent), src@, path@, acc).out
            &&& opt_view(r.1) == cpp_visit(*n, opt_view(*parent), src@, path@, acc).active
        },
{
    if kind_is(n, "preproc_include") {
        cpp_include_visit_exec(n, src, parent)
    } else if kind_is(n, "call_expression") {
        cpp_call_visit_exec(n, src, parent)
    } else if kind_is(n, "function_definition") {
        let (name, owner) = cpp_fn_target_exec(n, parent, src, path);
        let label = if parent_is_kind_exec(nodes, &owner, "Class") || parent_is_kind_exec(nodes, &owner, "Struct") {
            "Method"
        } else {
            "Function"
        };
        decl_visit_exec(n, &owner, path, name.as_slice(), label, src)
    } else {
        let label: &str = if kind_is(n, "class_specifier") {
            "Class"
        } else if kind_is(n, "struct_specifier") {
            "Struct"
        } else if kind_is(n, "namespace_definition") {
            "Namespace"
        } else {
            return no_visit_exec(parent);
        };
        let name = name_or_anonymous_exec(n, src);
        decl_visit_exec(n, parent, path, name.as_slice(), label, src)
    }
}

} // verus!
