//! The Python walker.
use crate::parser::shared::{
    call_visit, call_visit_exec, decl_visit, decl_visit_exec, imports_visit, imports_visit_exec,
    lemma_child_wf, line_of, name_or_anonymous, name_or_anonymous_exec, no_visit, no_visit_exec,
    parent_is_kind, parent_is_kind_exec, valid_name, valid_name_exec,
};
use crate::parser::syntax::{
    child_by_field, child_by_field_name, kind_is, lemma_wf_children, node_text_or, text_or, wf, SyntaxNode,
};
use crate::parser::{
    analyze_tree, opt_view, parse_outcome, LanguageParser, SourceLanguage, Visit, Walker,
    PARSE_TIMEOUT_MICROS,
};
use crate::text::{push_all, push_str, to_chars, views};
use crate::types::ast::{node_views, AnalysisView, FileAnalysis, NodeData};
use crate::parser::grammar::{parse_source, Grammar, LoadedGrammar};
use vstd::prelude::*;

verus! {

/// The Python parser.
pub struct PythonParser;

impl PythonParser {
    /// Parses Python source under the parse time limit: the walk of the tree
    /// tree-sitter's Python grammar yields, or nothing when no tree comes back.
    pub fn parse_python(&self, content: &str, file_path: &str) -> (r: FileAnalysis)
        ensures
            parse_outcome(SourceLanguage::Python(*self), content@, file_path@, r@),
    {
        let grammar = LoadedGrammar::load(Grammar::Python);
        match parse_source(&grammar, content, Some(PARSE_TIMEOUT_MICROS)) {
            Some(t) => analyze_tree(Walker::Python, &t, content.as_bytes(), file_path),
            None => FileAnalysis::empty(),
        }
    }
}

impl LanguageParser for PythonParser {
    open spec fn source_language(&self) -> SourceLanguage {
        SourceLanguage::Python(*self)
    }

    fn parse(&self, content: &str, file_path: &str) -> FileAnalysis {
        self.parse_python(content, file_path)
    }
}

/// The modules an `import` statement names: the non-empty texts of its
/// `dotted_name` children from position `i` on.
pub open spec fn py_dotted_from(cs: Seq<SyntaxNode>, src: Seq<u8>, i: int) -> Seq<Seq<char>>
    decreases cs.len() - i,
{
    if i < 0 || i >= cs.len() {
        seq![]
    } else {
        let t = text_or(src, cs[i], seq![]);
        let head = if cs[i].kind@ == "dotted_name"@ && t.len() > 0 { seq![t] } else { seq![] };
        head + py_dotted_from(cs, src, i + 1)
    }
}

/// The name an item after `import` in a `from` statement imports: an
/// aliased import's original name, otherwise the item's text.
pub open spec fn py_import_name(c: SyntaxNode, src: Seq<u8>) -> Seq<char> {
    if c.kind@ == "aliased_import"@ {
        match child_by_field(c, "name"@) {
            Some(nm) => text_or(src, nm, seq![]),
            None => text_or(src, c, seq![]),
        }
    } else {
        text_or(src, c, seq![])
    }
}

/// The imports of a `from ... import ...` statement, scanning its children
/// from position `i`: the module after `from` (when non-empty), then
/// `module::name` for each item after `import`, while a module is known.
pub open spec fn py_from_scan(
    cs: Seq<SyntaxNode>,
    src: Seq<u8>,
    i: int,
    after_from: bool,
    after_import: bool,
    module: Seq<char>,
) -> Seq<Seq<char>>
    decreases cs.len() - i,
{
    if i < 0 || i >= cs.len() {
        seq![]
    } else {
        let k = cs[i].kind@;
        if k == "from"@ {
            py_from_scan(cs, src, i + 1, true, after_import, module)
        } else if k == "import"@ {
            py_from_scan(cs, src, i + 1, false, true, module)
        } else if after_from {
            if k == "dotted_name"@ || k == "relative_import"@ {
                let m = text_or(src, cs[i], seq![]);
                let head = if m.len() > 0 { seq![m] } else { seq![] };
                head + py_from_scan(cs, src, i + 1, after_from, after_import, m)
            } else {
                py_from_scan(cs, src, i + 1, after_from, after_import, module)
            }
        } else if after_import && (k == "dotted_name"@ || k == "identifier"@ || k == "aliased_import"@) {
            let nt = py_import_name(cs[i], src);
            let head = if nt.len() > 0 && module.len() > 0 {
                seq![module + "::"@ + nt]
            } else {
                seq![]
            };
            head + py_from_scan(cs, src, i + 1, after_from, after_import, module)
        } else {
            py_from_scan(cs, src, i + 1, after_from, after_import, module)
        }
    }
}

/// What a Python `call` contributes: a method call through an attribute,
/// or a plain call, when the name is made of letters, digits and `_`.
pub open spec fn py_call_visit(n: SyntaxNode, parent: Option<Seq<char>>, src: Seq<u8>) -> Visit {
    match child_by_field(n, "function"@) {
        Some(f) => if f.kind@ == "attribute"@ {
            match child_by_field(f, "attribute"@) {
                Some(a) => {
                    let m = text_or(src, a, seq![]);
                    if valid_name(m, "_"@) {
                        call_visit(parent, m, line_of(n), true)
                    } else {
                        no_visit(parent)
                    }
                },
                None => no_visit(parent),
            }
        } else {
            let name = text_or(src, f, seq![]);
            if valid_name(name, "_"@) {
                call_visit(parent, name, line_of(n), false)
            } else {
                no_visit(parent)
            }
        },
        None => no_visit(parent),
    }
}

/// What a Python syntax node contributes, given the records so far: a
/// function directly inside a recorded class is a method.
pub open spec fn python_visit(n: SyntaxNode, parent: Option<Seq<char>>, src: Seq<u8>, path: Seq<char>, acc: AnalysisView) -> Visit {
    let k = n.kind@;
    if k == "import_statement"@ {
        imports_visit(parent, py_dotted_from(n.children@, src, 0), line_of(n))
    } else if k == "import_from_statement"@ {
        imports_visit(parent, py_from_scan(n.children@, src, 0, false, false, seq![]), line_of(n))
    } else if k == "call"@ {
        py_call_visit(n, parent, src)
    } else if k == "class_definition"@ {
        decl_visit(n, parent, path, name_or_anonymous(n, src), "Class"@, src)
    } else if k == "function_definition"@ {
        let label = if parent_is_kind(acc.nodes, parent, "Class"@) { "Method"@ } else { "Function"@ };
        decl_visit(n, parent, path, name_or_anonymous(n, src), label, src)
    } else {
        no_visit(parent)
    }
}

fn py_dotted_exec(n: &SyntaxNode, src: &[u8]) -> (r: Vec<Vec<char>>)
    requires
        wf(*n, src@.len()),
    ensures
        views(r@) == py_dotted_from(n.children@, src@, 0),
{
    proof {
        lemma_wf_children(*n, src@.len());
        reveal_strlit("");
        assert(""@ =~= Seq::<char>::empty());
    }
    let ghost cs = n.children@;
    let mut out: Vec<Vec<char>> = Vec::new();
    let mut i: usize = 0;
    while i < n.children.len()
        invariant
            i <= cs.len(),
            cs == n.children@,
            ""@ =~= Seq::<char>::empty(),
            forall|j: int| 0 <= j < cs.len() ==> wf(#[trigger] cs[j], src@.len()),
            views(out@) + py_dotted_from(cs, src@, i as int) == py_dotted_from(cs, src@, 0),
        decreases cs.len() - i,
    {
        let c = &n.children[i];
        proof {
            assert(wf(cs[i as int], src@.len()));
        }
        let t = node_text_or(src, c, "");
        let ghost before = views(out@);
        if kind_is(c, "dotted_name") && t.len() > 0 {
            out.push(t);
            proof {
                assert(views(out@) =~= before + seq![t@]);
            }
        }
        proof {
            assert(views(out@) + py_dotted_from(cs, src@, i + 1) =~= before + py_dotted_from(cs, src@, i as int));
        }
        i = i + 1;
    }
    proof {
        assert(py_dotted_from(cs, src@, i as int) =~= seq![]);
        assert(views(out@) =~= views(out@) + py_dotted_from(cs, src@, i as int));
    }
    out
}

fn py_import_name_exec(c: &SyntaxNode, src: &[u8]) -> (r: Vec<char>)
    requires
        wf(*c, src@.len()),
    ensures
        r@ == py_import_name(*c, src@),
{
    proof {
        reveal_strlit("");
        assert(""@ =~= Seq::<char>::empty());
    }
    if kind_is(c, "aliased_import") {
        match child_by_field_name(c, "name") {
            Some(nm) => {
                proof {
                    lemma_child_wf(*c, *nm, src@.len());
                }
                node_text_or(src, nm, "")
            },
            None => node_text_or(src, c, ""),
        }
    } else {
        node_text_or(src, c, "")
    }
}

fn py_from_exec(n: &SyntaxNode, src: &[u8]) -> (r: Vec<Vec<char>>)
    requires
        wf(*n, src@.len()),
    ensures
        views(r@) == py_from_scan(n.children@, src@, 0, false, false, seq![]),
{
    proof {
        lemma_wf_children(*n, src@.len());
        reveal_strlit("");
        assert(""@ =~= Seq::<char>::empty());
    }
    let ghost cs = n.children@;
    let mut out: Vec<Vec<char>> = Vec::new();
    let mut after_from = false;
    let mut after_import = false;
    let mut module: Vec<char> = Vec::new();
    let mut i: usize = 0;
    while i < n.children.len()
        invariant
            i <= cs.len(),
            cs == n.children@,
            ""@ =~= Seq::<char>::empty(),
            forall|j: int| 0 <= j < cs.len() ==> wf(#[trigger] cs[j], src@.len()),
            views(out@) + py_from_scan(cs, src@, i as int, after_from, after_import, module@)
                == py_from_scan(cs, src@, 0, false, false, seq![]),
        decreases cs.len() - i,
    {
        let c = &n.children[i];
        proof {
            assert(wf(cs[i as int], src@.len()));
        }
        let ghost before = views(out@);
        let ghost (f0, a0, m0) = (after_from, after_import, module@);
        if kind_is(c, "from") {
            after_from = true;
            proof {
                assert(views(out@) + py_from_scan(cs, src@, i + 1, after_from, after_import, module@)
                    == before + py_from_scan(cs, src@, i as int, f0, a0, m0));
            }
        } else if kind_is(c, "import") {
            after_import = true;
            after_from = false;
            proof {
                assert(views(out@) + py_from_scan(cs, src@, i + 1, after_from, after_import, module@)
                    == before + py_from_scan(cs, src@, i as int, f0, a0, m0));
            }
        } else if after_from {
            if kind_is(c, "dotted_name") || kind_is(c, "relative_import") {
                module = node_text_or(src, c, "");
                if module.len() > 0 {
                    let mut copy: Vec<char> = Vec::new();
                    push_all(&mut copy, module.as_slice());
                    out.push(copy);
                    proof {
                        assert(views(out@) =~= before + seq![module@]);
                    }
                }
                proof {
                    let head: Seq<Seq<char>> = if module@.len() > 0 { seq![module@] } else { seq![] };
                    assert(views(out@) =~= before + head);
                    assert(views(out@) + py_from_scan(cs, src@, i + 1, after_from, after_import, module@)
                        =~= before + py_from_scan(cs, src@, i as int, f0, a0, m0));
                }
            }
        } else if after_import && (kind_is(c, "dotted_name") || kind_is(c, "identifier") || kind_is(c, "aliased_import")) {
            let nt = py_import_name_exec(c, src);
            if nt.len() > 0 && module.len() > 0 {
                let mut joined: Vec<char> = Vec::new();
                push_all(&mut joined, module.as_slice());
                push_str(&mut joined, "::");
                push_all(&mut joined, nt.as_slice());
                out.push(joined);
                proof {
                    assert(views(out@) =~= before + seq![module@ + "::"@ + nt@]);
                }
            }
            proof {
                let head: Seq<Seq<char>> = if nt@.len() > 0 && module@.len() > 0 {
                    seq![module@ + "::"@ + nt@]
                } else {
                    seq![]
                };
                assert(views(out@) =~= before + head);
                assert(views(out@) + py_from_scan(cs, src@, i + 1, after_from, after_import, module@)
                    =~= before + py_from_scan(cs, src@, i as int, f0, a0, m0));
            }
        }
        i = i + 1;
    }
    proof {
        assert(py_from_scan(cs, src@, i as int, after_from, after_import, module@) =~= seq![]);
        assert(views(out@) =~= views(out@) + py_from_scan(cs, src@, i as int, after_from, after_import, module@));
    }
    out
}

fn py_call_visit_exec(n: &SyntaxNode, src: &[u8], parent: &Option<String>) -> (r: (FileAnalysis, Option<String>))
    requires
        wf(*n, src@.len()),
    ensures
        r.0@ == py_call_visit(*n, opt_view(*parent), src@).out,
        opt_view(r.1) == py_call_visit(*n, opt_view(*parent), src@).active,
{
    proof {
        reveal_strlit("");
        assert(""@ =~= Seq::<char>::empty());
    }
    match child_by_field_name(n, "function") {
        Some(f) => {
            proof {
                lemma_child_wf(*n, *f, src@.len());
            }
            if kind_is(f, "attribute") {
                match child_by_field_name(f, "attribute") {
                    Some(a) => {
                        proof {
                            lemma_child_wf(*f, *a, src@.len());
                        }
                        let m = node_text_or(src, a, "");
                        if valid_name_exec(m.as_slice(), "_") {
                            call_visit_exec(parent, m.as_slice(), n.start_row + 1, true)
                        } else {
                            no_visit_exec(parent)
                        }
                    },
                    None => no_visit_exec(parent),
                }
            } else {
                let name = node_text_or(src, f, "");
                if valid_name_exec(name.as_slice(), "_") {
                    call_visit_exec(parent, name.as_slice(), n.start_row + 1, false)
                } else {
                    no_visit_exec(parent)
                }
            }
        },
        None => no_visit_exec(parent),
    }
}

/// What a Python syntax node contributes, computed from the node and the
/// records so far.
pub fn python_visit_node(n: &SyntaxNode, src: &[u8], path: &str, parent: &Option<String>, nodes: &Vec<NodeData>) -> (r: (FileAnalysis, Option<String>))
    requires
        wf(*n, src@.len()),
    ensures
        forall|acc: AnalysisView| acc.nodes == node_views(nodes@) ==> {
            &&& r.0@ == python_visit(*n, opt_view(*parent), src@, path@, acc).out
            &&& opt_view(r.1) == python_visit(*n, opt_view(*parent), src@, path@, acc).active
        },
{
    if kind_is(n, "import_statement") {
        let paths = py_dotted_exec(n, src);
        imports_visit_exec(parent, &paths, n.start_row + 1)
    } else if kind_is(n, "import_from_statement") {
        let paths = py_from_exec(n, src);
        imports_visit_exec(parent, &paths, n.start_row + 1)
    } else if kind_is(n, "call") {
        py_call_visit_exec(n, src, parent)
    } else if kind_is(n, "class_definition") {
        let name = name_or_anonymous_exec(n, src);
        decl_visit_exec(n, parent, path, name.as_slice(), "Class", src)
    } else if kind_is(n, "function_definition") {
        let name = name_or_anonymous_exec(n, src);
        let label = if parent_is_kind_exec(nodes, parent, "Class") { "Method" } else { "Function" };
        decl_visit_exec(n, parent, path, name.as_slice(), label, src)
    } else {
        no_visit_exec(parent)
    }
}

} // verus!
