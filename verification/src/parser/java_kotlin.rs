//! The Java and Kotlin walkers.
use crate::parser::shared::{
    call_visit, call_visit_exec, decl_visit, decl_visit_exec, first_child_of_either,
    first_child_of_either_exec, first_child_of_kind, first_child_of_kind_exec, import_if_nonempty,
    import_if_nonempty_exec, lemma_child_wf, line_of, name_or_anonymous, name_or_anonymous_exec,
    no_visit, no_visit_exec, parent_is_kind, parent_is_kind_exec, valid_name, valid_name_exec,
};
use crate::parser::syntax::{
    child_by_field, child_by_field_name, kind_is, lemma_wf_children, node_text_or, text_or, wf, SyntaxNode,
};
use crate::parser::{analyze_tree, opt_view, parse_outcome, LanguageParser, SourceLanguage, Visit, Walker};
use crate::text::{ends_with, ends_with_chars, to_chars};
use crate::types::ast::{node_views, AnalysisView, FileAnalysis, NodeData};
use crate::parser::grammar::{parse_source, Grammar, LoadedGrammar};
use vstd::prelude::*;

verus! {

/// The Java and Kotlin parser.
pub struct JavaKotlinParser;

/// A path that the Kotlin grammar and walker handle.
pub open spec fn is_kotlin_path(path: Seq<char>) -> bool {
    ends_with(path, ".kt"@) || ends_with(path, ".kts"@)
}

impl JavaKotlinParser {
    /// Parses Kotlin source for a `.kt` or `.kts` path and Java source
    /// otherwise: the walk of the tree that comes back, or nothing.
    pub fn parse_java_kotlin(&self, content: &str, file_path: &str) -> (r: FileAnalysis)
        ensures
            parse_outcome(SourceLanguage::JavaKotlin(*self), content@, file_path@, r@),
    {
        let path = to_chars(file_path);
        let kt = to_chars(".kt");
        let kts = to_chars(".kts");
        let kotlin = ends_with_chars(path.as_slice(), kt.as_slice()) || ends_with_chars(
            path.as_slice(),
            kts.as_slice(),
        );
        let grammar = if kotlin {
            LoadedGrammar::load(Grammar::Kotlin)
        } else {
            LoadedGrammar::load(Grammar::Java)
        };
        let walker = if kotlin {
            Walker::Kotlin
        } else {
            Walker::Java
        };
        match parse_source(&grammar, content, None) {
            Some(t) => analyze_tree(walker, &t, content.as_bytes(), file_path),
            None => FileAnalysis::empty(),
        }
    }
}

impl LanguageParser for JavaKotlinParser {
    open spec fn source_language(&self) -> SourceLanguage {
        SourceLanguage::JavaKotlin(*self)
    }

    fn parse(&self, content: &str, file_path: &str) -> FileAnalysis {
        self.parse_java_kotlin(content, file_path)
    }
}

// ───────────────────────── Java ─────────────────────────

/// What a Java `import_declaration` contributes: its first identifier
/// child, when non-empty.
pub open spec fn java_import_visit(n: SyntaxNode, parent: Option<Seq<char>>, src: Seq<u8>) -> Visit {
    match first_child_of_either(n, "scoped_identifier"@, "identifier"@) {
        Some(c) => import_if_nonempty(parent, text_or(src, c, seq![]), line_of(n)),
        None => no_visit(parent),
    }
}

/// What a Java `method_invocation` contributes: a call of its name, a
/// method call when it has a receiver object.
pub open spec fn java_call_visit(n: SyntaxNode, parent: Option<Seq<char>>, src: Seq<u8>) -> Visit {
    match child_by_field(n, "name"@) {
        Some(nm) => {
            let name = text_or(src, nm, seq![]);
            if valid_name(name, "_"@) {
                call_visit(parent, name, line_of(n), child_by_field(n, "object"@) is Some)
            } else {
                no_visit(parent)
            }
        },
        None => no_visit(parent),
    }
}

/// The kind label of a Java declaration kind, if it is one.
pub open spec fn java_decl_label(k: Seq<char>) -> Option<Seq<char>> {
    if k == "class_declaration"@ {
        Some("Class"@)
    } else if k == "interface_declaration"@ {
        Some("Interface"@)
    } else if k == "method_declaration"@ {
        Some("Method"@)
    } else if k == "constructor_declaration"@ {
        Some("Constructor"@)
    } else {
        None
    }
}

/// What a Java syntax node contributes.
pub open spec fn java_visit(n: SyntaxNode, parent: Option<Seq<char>>, src: Seq<u8>, path: Seq<char>) -> Visit {
    let k = n.kind@;
    if k == "import_declaration"@ {
        java_import_visit(n, parent, src)
    } else if k == "method_invocation"@ {
        java_call_visit(n, parent, src)
    } else {
        match java_decl_label(k) {
            Some(label) => decl_visit(n, parent, path, name_or_anonymous(n, src), label, src),
            None => no_visit(parent),
        }
    }
}

fn java_import_visit_exec(n: &SyntaxNode, src: &[u8], parent: &Option<String>) -> (r: (FileAnalysis, Option<String>))
    requires
        wf(*n, src@.len()),
    ensures
        r.0@ == java_import_visit(*n, opt_view(*parent), src@).out,
        opt_view(r.1) == java_import_visit(*n, opt_view(*parent), src@).active,
{
    proof {
        reveal_strlit("");
        assert(""@ =~= Seq::<char>::empty());
    }
    match first_child_of_either_exec(n, "scoped_identifier", "identifier") {
        Some(c) => {
            proof {
                lemma_child_wf(*n, *c, src@.len());
            }
            let t = node_text_or(src, c, "");
            import_if_nonempty_exec(parent, t, n.start_row + 1)
        },
        None => no_visit_exec(parent),
    }
}

fn java_call_visit_exec(n: &SyntaxNode, src: &[u8], parent: &Option<String>) -> (r: (FileAnalysis, Option<String>))
    requires
        wf(*n, src@.len()),
    ensures
        r.0@ == java_call_visit(*n, opt_view(*parent), src@).out,
        opt_view(r.1) == java_call_visit(*n, opt_view(*parent), src@).active,
{
    proof {
        reveal_strlit("");
        assert(""@ =~= Seq::<char>::empty());
    }
    match child_by_field_name(n, "name") {
        Some(nm) => {
            proof {
                lemma_child_wf(*n, *nm, src@.len());
            }
            let name = node_text_or(src, nm, "");
            let has_receiver = match child_by_field_name(n, "object") {
                Some(_) => true,
                None => false,
            };
            if valid_name_exec(name.as_slice(), "_") {
                call_visit_exec(parent, name.as_slice(), n.start_row + 1, has_receiver)
            } else {
                no_visit_exec(parent)
            }
        },
        None => no_visit_exec(parent),
    }
}

/// What a Java syntax node contributes, computed.
pub fn java_visit_node(n: &SyntaxNode, src: &[u8], path: &str, parent: &Option<String>) -> (r: (FileAnalysis, Option<String>))
    requires
        wf(*n, src@.len()),
    ensures
        r.0@ == java_visit(*n, opt_view(*parent), src@, path@).out,
        opt_view(r.1) == java_visit(*n, opt_view(*parent), src@, path@).active,
{
    if kind_is(n, "import_declaration") {
        java_import_visit_exec(n, src, parent)
    } else if kind_is(n, "method_invocation") {
        java_call_visit_exec(n, src, parent)
    } else {
        let label: &str = if kind_is(n, "class_declaration") {
            "Class"
        } else if kind_is(n, "interface_declaration") {
            "Interface"
        } else if kind_is(n, "method_declaration") {
            "Method"
        } else if kind_is(n, "constructor_declaration") {
            "Constructor"
        } else {
            return no_visit_exec(parent);
        };
        let name = name_or_anonymous_exec(n, src);
        decl_visit_exec(n, parent, path, name.as_slice(), label, src)
    }
}

// ───────────────────────── Kotlin ─────────────────────────

/// The called name and whether it has a receiver, for a Kotlin
/// `call_expression`: through a navigation expression, the first
/// identifier of its first navigation suffix (a receiver call); a bare
/// identifier is a plain call; otherwise the name is empty.
pub open spec fn kotlin_callee(n: SyntaxNode, src: Seq<u8>) -> (Seq<char>, bool) {
    if n.children@.len() > 0 {
        let first = n.children@[0];
        if first.kind@ == "navigation_expression"@ {
            let name = match first_child_of_kind(first, "navigation_suffix"@) {
                Some(suffix) => match first_child_of_kind(suffix, "simple_identifier"@) {
                    Some(t) => text_or(src, t, seq![]),
                    None => seq![],
                },
                None => seq![],
            };
            (name, true)
        } else if first.kind@ == "simple_identifier"@ {
            (text_or(src, first, seq![]), false)
        } else {
            (seq![], false)
        }
    } else {
        (seq![], false)
    }
}

/// The name a Kotlin declaration records: the text of its first child of
/// kind `a` or `b`, or `anonymous`.
pub open spec fn kotlin_decl_name(n: SyntaxNode, a: Seq<char>, b: Seq<char>, src: Seq<u8>) -> Seq<char> {
    match first_child_of_either(n, a, b) {
        Some(c) => text_or(src, c, "anonymous"@),
        None => "anonymous"@,
    }
}

/// What a Kotlin syntax node contributes, given the records so far: a
/// function directly inside a recorded class is a method.
pub open spec fn kotlin_visit(n: SyntaxNode, parent: Option<Seq<char>>, src: Seq<u8>, path: Seq<char>, acc: AnalysisView) -> Visit {
    let k = n.kind@;
    if k == "import_header"@ {
        match first_child_of_kind(n, "identifier"@) {
            Some(c) => import_if_nonempty(parent, text_or(src, c, seq![]), line_of(n)),
            None => no_visit(parent),
        }
    } else if k == "call_expression"@ {
        let (name, has_receiver) = kotlin_callee(n, src);
        if valid_name(name, "_"@) {
            call_visit(parent, name, line_of(n), has_receiver)
        } else {
            no_visit(parent)
        }
    } else if k == "class_declaration"@ || k == "object_declaration"@ {
        decl_visit(n, parent, path, kotlin_decl_name(n, "simple_identifier"@, "type_identifier"@, src), "Class"@, src)
    } else if k == "interface_declaration"@ {
        decl_visit(n, parent, path, kotlin_decl_name(n, "simple_identifier"@, "type_identifier"@, src), "Interface"@, src)
    } else if k == "function_declaration"@ {
        let label = if parent_is_kind(acc.nodes, parent, "Class"@) { "Method"@ } else { "Function"@ };
        decl_visit(n, parent, path, kotlin_decl_name(n, "simple_identifier"@, "simple_identifier"@, src), label, src)
    } else {
        no_visit(parent)
    }
}

fn kotlin_callee_exec(n: &SyntaxNode, src: &[u8]) -> (r: (Vec<char>, bool))
    requires
        wf(*n, src@.len()),
    ensures
        r.0@ == kotlin_callee(*n, src@).0,
        r.1 == kotlin_callee(*n, src@).1,
{
    proof {
        reveal_strlit("");
        assert(""@ =~= Seq::<char>::empty());
        lemma_wf_children(*n, src@.len());
    }
    if n.children.len() > 0 {
        let first = &n.children[0];
        proof {
            assert(wf(n.children@[0], src@.len()));
        }
        if kind_is(first, "navigation_expression") {
            let name = match first_child_of_kind_exec(first, "navigation_suffix") {
                Some(suffix) => {
                    proof {
                        lemma_child_wf(*first, *suffix, src@.len());
                    }
                    match first_child_of_kind_exec(suffix, "simple_identifier") {
                        Some(t) => {
                            proof {
                                lemma_child_wf(*suffix, *t, src@.len());
                            }
                            node_text_or(src, t, "")
                        },
                        None => Vec::new(),
                    }
                },
                None => Vec::new(),
            };
            (name, true)
        } else if kind_is(first, "simple_identifier") {
            (node_text_or(src, first, ""), false)
        } else {
            (Vec::new(), false)
        }
    } else {
        (Vec::new(), false)
    }
}

fn kotlin_decl_name_exec(n: &SyntaxNode, a: &str, b: &str, src: &[u8]) -> (r: Vec<char>)
    requires
        wf(*n, src@.len()),
    ensures
        r@ == kotlin_decl_name(*n, a@, b@, src@),
{
    match first_child_of_either_exec(n, a, b) {
        Some(c) => {
            proof {
                lemma_child_wf(*n, *c, src@.len());
            }
            node_text_or(src, c, "anonymous")
        },
        None => to_chars("anonymous"),
    }
}

/// What a Kotlin syntax node contributes, computed from the node and the
/// records so far.
pub fn kotlin_visit_node(n: &SyntaxNode, src: &[u8], path: &str, parent: &Option<String>, nodes: &Vec<NodeData>) -> (r: (FileAnalysis, Option<String>))
    requires
        wf(*n, src@.len()),
    ensures
        forall|acc: AnalysisView| acc.nodes == node_views(nodes@) ==> {
            &&& r.0@ == kotlin_visit(*n, opt_view(*parent), src@, path@, acc).out
            &&& opt_view(r.1) == kotlin_visit(*n, opt_view(*parent), src@, path@, acc).active
        },
{
    proof {
        reveal_strlit("");
        assert(""@ =~= Seq::<char>::empty());
    }
    if kind_is(n, "import_header") {
        match first_child_of_kind_exec(n, "identifier") {
            Some(c) => {
                proof {
                    lemma_child_wf(*n, *c, src@.len());
                }
                let t = node_text_or(src, c, "");
                import_if_nonempty_exec(parent, t, n.start_row + 1)
            },
            None => no_visit_exec(parent),
        }
    } else if kind_is(n, "call_expression") {
        let (name, has_receiver) = kotlin_callee_exec(n, src);
        if valid_name_exec(name.as_slice(), "_") {
            call_visit_exec(parent, name.as_slice(), n.start_row + 1, has_receiver)
        } else {
            no_visit_exec(parent)
        }
    } else if kind_is(n, "class_declaration") || kind_is(n, "object_declaration") {
        let name = kotlin_decl_name_exec(n, "simple_identifier", "type_identifier", src);
        decl_visit_exec(n, parent, path, name.as_slice(), "Class", src)
    } else if kind_is(n, "interface_declaration") {
        let name = kotlin_decl_name_exec(n, "simple_identifier", "type_identifier", src);
        decl_visit_exec(n, parent, path, name.as_slice(), "Interface", src)
    } else if kind_is(n, "function_declaration") {
        let name = kotlin_decl_name_exec(n, "simple_identifier", "simple_identifier", src);
        let label = if parent_is_kind_exec(nodes, parent, "Class") { "Method" } else { "Function" };
        decl_visit_exec(n, parent, path, name.as_slice(), label, src)
    } else {
        no_visit_exec(parent)
    }
}

} // verus!
