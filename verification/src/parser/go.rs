//! The Go walker.
use crate::parser::shared::{
    call_visit, call_visit_exec, decl_visit, decl_visit_exec, extend_analysis, imports_visit,
    imports_visit_exec, lemma_child_wf, line_of, name_or_anonymous, name_or_anonymous_exec,
    no_visit, no_visit_exec, strip_end, strip_end_exec, strip_start, strip_start_exec, valid_name,
    valid_name_exec,
};
use crate::parser::syntax::{
    child_by_field, child_by_field_name, kind_is, lemma_wf_children, node_text_or, text_or, wf, SyntaxNode,
};
use crate::parser::{
    analyze_tree, clone_opt, opt_view, parse_outcome, LanguageParser, SourceLanguage, Visit, Walker,
};
use crate::text::{push_all, push_str, string_from_chars, to_chars, trim, trim_chars, views};
use crate::types::ast::{append_analysis, empty_analysis, AnalysisView, FileAnalysis};
use crate::parser::grammar::{parse_source, Grammar, LoadedGrammar};
use vstd::prelude::*;

verus! {

/// The Go parser.
pub struct GoParser;

impl GoParser {
    /// Parses Go source: the walk of the tree tree-sitter's Go grammar
    /// yields, or nothing when no tree comes back.
    pub fn parse_go(&self, content: &str, file_path: &str) -> (r: FileAnalysis)
        ensures
            parse_outcome(SourceLanguage::Go(*self), content@, file_path@, r@),
    {
        let grammar = LoadedGrammar::load(Grammar::Go);
        match parse_source(&grammar, content, None) {
            Some(t) => analyze_tree(Walker::Go, &t, content.as_bytes(), file_path),
            None => FileAnalysis::empty(),
        }
    }
}

impl LanguageParser for GoParser {
    open spec fn source_language(&self) -> SourceLanguage {
        SourceLanguage::Go(*self)
    }

    fn parse(&self, content: &str, file_path: &str) -> FileAnalysis {
        self.parse_go(content, file_path)
    }
}

/// The import path of an `import_spec`: the text under `path` without
/// surrounding quotes.
pub open spec fn go_import_visit(n: SyntaxNode, parent: Option<Seq<char>>, src: Seq<u8>) -> Visit {
    match child_by_field(n, "path"@) {
        Some(p) => {
            let t = strip_end(strip_start(text_or(src, p, seq![]), "'\""@), "'\""@);
            if t.len() > 0 {
                imports_visit(parent, seq![t], line_of(n))
            } else {
                no_visit(parent)
            }
        },
        None => no_visit(parent),
    }
}

/// What a Go `call_expression` contributes: a method call through a
/// selector, or a plain call, when the name is made of letters, digits
/// and `_`.
pub open spec fn go_call_visit(n: SyntaxNode, parent: Option<Seq<char>>, src: Seq<u8>) -> Visit {
    match child_by_field(n, "function"@) {
        Some(f) => if f.kind@ == "selector_expression"@ {
            match child_by_field(f, "field"@) {
                Some(fld) => {
                    let m = text_or(src, fld, seq![]);
                    if valid_name(m, "_"@) {
                        call_visit(parent, m, line_of(n), true)
                    } else {
                        no_visit(parent)
                    }
                },
                None => no_visit(parent),
            }
        } else {
            let name = text_or(src, f, seq![]);
            if valid_name(name, "_"@) {
                call_visit(parent, name, line_of(n), false)
            } else {
                no_visit(parent)
            }
        },
        None => no_visit(parent),
    }
}

/// The symbol a method is recorded under. Only the `receiver` node itself
/// is examined: when it is a `parameter_declaration` with a `type`, the
/// method goes under `file::Type` (leading `*` and whitespace removed);
/// otherwise it stays under the enclosing symbol.
pub open spec fn go_method_parent(n: SyntaxNode, parent: Option<Seq<char>>, src: Seq<u8>, path: Seq<char>) -> Option<Seq<char>> {
    match child_by_field(n, "receiver"@) {
        Some(r) => if r.kind@ == "parameter_declaration"@ {
            match child_by_field(r, "type"@) {
                Some(t) => Some(path + "::"@ + trim(strip_start(text_or(src, t, seq![]), "*"@))),
                None => parent,
            }
        } else {
            parent
        },
        None => parent,
    }
}

/// The name and kind label a `type_spec` child declares, when it declares
/// a struct or an interface.
pub open spec fn go_type_spec(c: SyntaxNode, src: Seq<u8>) -> Option<(Seq<char>, Seq<char>)> {
    if c.kind@ == "type_spec"@ {
        match child_by_field(c, "name"@) {
            Some(nm) => match child_by_field(c, "type"@) {
                Some(t) => if t.kind@ == "struct_type"@ {
                    Some((text_or(src, nm, "anonymous"@), "Struct"@))
                } else if t.kind@ == "interface_type"@ {
                    Some((text_or(src, nm, "anonymous"@), "Interface"@))
                } else {
                    None
                },
                None => None,
            },
            None => None,
        }
    } else {
        None
    }
}

/// The records of a `type_declaration`, from child `i` on, after `out`:
/// each struct or interface `type_spec` is recorded with the declaration's
/// position and signature, and becomes the symbol the next one (and the
/// declaration's descendants) are recorded under.
pub open spec fn go_type_scan(n: SyntaxNode, src: Seq<u8>, path: Seq<char>, i: int, parent: Option<Seq<char>>, out: AnalysisView) -> Visit
    decreases n.children@.len() - i,
{
    if i < 0 || i >= n.children@.len() {
        Visit { out, active: parent }
    } else {
        match go_type_spec(n.children@[i], src) {
            Some((name, label)) => {
                let d = decl_visit(n, parent, path, name, label, src);
                go_type_scan(n, src, path, i + 1, d.active, append_analysis(out, d.out))
            },
            None => go_type_scan(n, src, path, i + 1, parent, out),
        }
    }
}

/// What a Go syntax node contributes.
pub open spec fn go_visit(n: SyntaxNode, parent: Option<Seq<char>>, src: Seq<u8>, path: Seq<char>) -> Visit {
    let k = n.kind@;
    if k == "import_spec"@ {
        go_import_visit(n, parent, src)
    } else if k == "call_expression"@ {
        go_call_visit(n, parent, src)
    } else if k == "function_declaration"@ {
        decl_visit(n, parent, path, name_or_anonymous(n, src), "Function"@, src)
    } else if k == "method_declaration"@ {
        decl_visit(n, go_method_parent(n, parent, src, path), path, name_or_anonymous(n, src), "Method"@, src)
    } else if k == "type_declaration"@ {
        go_type_scan(n, src, path, 0, parent, empty_analysis())
    } else {
        no_visit(parent)
    }
}

fn go_import_visit_exec(n: &SyntaxNode, src: &[u8], parent: &Option<String>) -> (r: (FileAnalysis, Option<String>))
    requires
        wf(*n, src@.len()),
    ensures
        r.0@ == go_import_visit(*n, opt_view(*parent), src@).out,
        opt_view(r.1) == go_import_visit(*n, opt_view(*parent), src@).active,
{
    proof {
        reveal_strlit("");
        assert(""@ =~= Seq::<char>::empty());
    }
    match child_by_field_name(n, "path") {
        Some(p) => {
            proof {
                lemma_child_wf(*n, *p, src@.len());
            }
            let raw = node_text_or(src, p, "");
            let a = strip_start_exec(raw.as_slice(), "'\"");
            let t = strip_end_exec(a.as_slice(), "'\"");
            if t.len() > 0 {
                let mut paths: Vec<Vec<char>> = Vec::new();
                let ghost tv = t@;
                paths.push(t);
                proof {
                    assert(views(paths@) =~= seq![tv]);
                }
                imports_visit_exec(parent, &paths, n.start_row + 1)
            } else {
                no_visit_exec(parent)
            }
        },
        None => no_visit_exec(parent),
    }
}

fn go_call_visit_exec(n: &SyntaxNode, src: &[u8], parent: &Option<String>) -> (r: (FileAnalysis, Option<String>))
    requires
        wf(*n, src@.len()),
    ensures
        r.0@ == go_call_visit(*n, opt_view(*parent), src@).out,
        opt_view(r.1) == go_call_visit(*n, opt_view(*parent), src@).active,
{
    proof {
        reveal_strlit("");
        assert(""@ =~= Seq::<char>::empty());
    }
    match child_by_field_name(n, "function") {
        Some(f) => {
            proof {
                lemma_child_wf(*n, *f, src@.len());
            }
            if kind_is(f, "selector_expression") {
                match child_by_field_name(f, "field") {
                    Some(fld) => {
                        proof {
                            lemma_child_wf(*f, *fld, src@.len());
                        }
                        let m = node_text_or(src, fld, "");
                        if valid_name_exec(m.as_slice(), "_") {
                            call_visit_exec(parent, m.as_slice(), n.start_row + 1, true)
                        } else {
                            no_visit_exec(parent)
                        }
                    },
                    None => no_visit_exec(parent),
                }
            } else {
                let name = node_text_or(src, f, "");
                if valid_name_exec(name.as_slice(), "_") {
                    call_visit_exec(parent, name.as_slice(), n.start_row + 1, false)
                } else {
                    no_visit_exec(parent)
                }
            }
        },
        None => no_visit_exec(parent),
    }
}

fn go_method_parent_exec(n: &SyntaxNode, parent: &Option<String>, src: &[u8], path: &str) -> (r: Option<String>)
    requires
        wf(*n, src@.len()),
    ensures
        opt_view(r) == go_method_parent(*n, opt_view(*parent), src@, path@),
{
    proof {
        reveal_strlit("");
        assert(""@ =~= Seq::<char>::empty());
    }
    match child_by_field_name(n, "receiver") {
        Some(r) => {
            proof {
                lemma_child_wf(*n, *r, src@.len());
            }
            if kind_is(r, "parameter_declaration") {
                match child_by_field_name(r, "type") {
                    Some(t) => {
                        proof {
                            lemma_child_wf(*r, *t, src@.len());
                        }
                        let raw = node_text_or(src, t, "");
                        let a = strip_start_exec(raw.as_slice(), "*");
                        let name = trim_chars(a.as_slice());
                        let mut id = to_chars(path);
                        push_str(&mut id, "::");
                        push_all(&mut id, name.as_slice());
                        Some(string_from_chars(id.as_slice()))
                    },
                    None => clone_opt(parent),
                }
            } else {
                clone_opt(parent)
            }
        },
        None => clone_opt(parent),
    }
}

fn go_type_spec_exec(c: &SyntaxNode, src: &[u8]) -> (r: Option<(Vec<char>, &'static str)>)
    requires
        wf(*c, src@.len()),
    ensures
        r matches Some((name, label)) ==> go_type_spec(*c, src@) == Some((name@, label@)),
        r is None ==> go_type_spec(*c, src@) is None,
{
    if !kind_is(c, "type_spec") {
        return None;
    }
    match child_by_field_name(c, "name") {
        Some(nm) => match child_by_field_name(c, "type") {
            Some(t) => {
                proof {
                    lemma_child_wf(*c, *nm, src@.len());
                }
                if kind_is(t, "struct_type") {
                    Some((node_text_or(src, nm, "anonymous"), "Struct"))
                } else if kind_is(t, "interface_type") {
                    Some((node_text_or(src, nm, "anonymous"), "Interface"))
                } else {
                    None
                }
            },
            None => None,
        },
        None => None,
    }
}

fn go_type_scan_exec(n: &SyntaxNode, src: &[u8], path: &str, parent: &Option<String>) -> (r: (FileAnalysis, Option<String>))
    requires
        wf(*n, src@.len()),
    ensures
        r.0@ == go_type_scan(*n, src@, path@, 0, opt_view(*parent), empty_analysis()).out,
        opt_view(r.1) == go_type_scan(*n, src@, path@, 0, opt_view(*parent), empty_analysis()).active,
{
    proof {
        lemma_wf_children(*n, src@.len());
    }
    let ghost goal = go_type_scan(*n, src@, path@, 0, opt_view(*parent), empty_analysis());
    let mut out = FileAnalysis::empty();
    let mut active = clone_opt(parent);
    let mut i: usize = 0;
    while i < n.children.len()
        invariant
            i <= n.children@.len(),
            wf(*n, src@.len()),
            forall|j: int| 0 <= j < n.children@.len() ==> wf(#[trigger] n.children@[j], src@.len()),
            go_type_scan(*n, src@, path@, i as int, opt_view(active), out@) == goal,
        decreases n.children.len() - i,
    {
        proof {
            assert(wf(n.children@[i as int], src@.len()));
        }
        match go_type_spec_exec(&n.children[i], src) {
            Some((name, label)) => {
                let (part, next) = decl_visit_exec(n, &active, path, name.as_slice(), label, src);
                extend_analysis(&mut out, part);
                active = next;
            },
            None => {},
        }
        i = i + 1;
    }
    (out, active)
}

/// What a Go syntax node contributes, computed.
pub fn go_visit_node(n: &SyntaxNode, src: &[u8], path: &str, parent: &Option<String>) -> (r: (FileAnalysis, Option<String>))
    requires
        wf(*n, src@.len()),
    ensures
        r.0@ == go_visit(*n, opt_view(*parent), src@, path@).out,
        opt_view(r.1) == go_visit(*n, opt_view(*parent), src@, path@).active,
{
    if kind_is(n, "import_spec") {
        go_import_visit_exec(n, src, parent)
    } else if kind_is(n, "call_expression") {
        go_call_visit_exec(n, src, parent)
    } else if kind_is(n, "function_declaration") {
        let name = name_or_anonymous_exec(n, src);
        decl_visit_exec(n, parent, path, name.as_slice(), "Function", src)
    } else if kind_is(n, "method_declaration") {
        let name = name_or_anonymous_exec(n, src);
        let owner = go_method_parent_exec(n, parent, src, path);
        decl_visit_exec(n, &owner, path, name.as_slice(), "Method", src)
    } else if kind_is(n, "type_declaration") {
        go_type_scan_exec(n, src, path, parent)
    } else {
        no_visit_exec(parent)
    }
}

} // verus!
