//! The Swift walker.
use crate::parser::shared::{
    call_visit, call_visit_exec, decl_visit, decl_visit_exec, first_child_of_kind, has_child_of_kind,
    imports_visit, imports_visit_exec, lemma_child_wf, line_of, name_or_anonymous,
    name_or_anonymous_exec, no_visit, no_visit_exec, texts_of_kind, texts_of_kind_from, valid_name,
    valid_name_exec,
};
use crate::parser::syntax::{
    child_by_field, child_by_field_name, kind_is, lemma_wf_children, node_text_or, text_or, wf, SyntaxNode,
};
use crate::parser::{
    analyze_tree, opt_view, parse_outcome, LanguageParser, SourceLanguage, Visit, Walker,
    PARSE_TIMEOUT_MICROS,
};
use crate::text::{chars_eq, to_chars};
use crate::types::ast::FileAnalysis;
use crate::parser::grammar::{parse_source, Grammar, LoadedGrammar};
use vstd::prelude::*;

verus! {

/// The Swift parser.
pub struct SwiftParser;

impl SwiftParser {
    /// Parses Swift source under the parse time limit: the walk of the tree
    /// that comes back, or nothing.
    pub fn parse_swift(&self, content: &str, file_path: &str) -> (r: FileAnalysis)
        ensures
            parse_outcome(SourceLanguage::Swift(*self), content@, file_path@, r@),
    {
        let grammar = LoadedGrammar::load(Grammar::Swift);
        match parse_source(&grammar, content, Some(PARSE_TIMEOUT_MICROS)) {
            Some(t) => analyze_tree(Walker::Swift, &t, content.as_bytes(), file_path),
            None => FileAnalysis::empty(),
        }
    }
}

impl LanguageParser for SwiftParser {
    open spec fn source_language(&self) -> SourceLanguage {
        SourceLanguage::Swift(*self)
    }

    fn parse(&self, content: &str, file_path: &str) -> FileAnalysis {
        self.parse_swift(content, file_path)
    }
}

/// What a Swift `call_expression` contributes, by its first child: a bare
/// identifier is a plain call; a navigation expression's member (the
/// `suffix` of its `suffix`) is a method call; names are made of letters,
/// digits and `_`.
pub open spec fn swift_call_visit(n: SyntaxNode, parent: Option<Seq<char>>, src: Seq<u8>) -> Visit {
    if n.children@.len() > 0 {
        let f = n.children@[0];
        if f.kind@ == "simple_identifier"@ {
            let name = text_or(src, f, seq![]);
            if valid_name(name, "_"@) {
                call_visit(parent, name, line_of(n), false)
            } else {
                no_visit(parent)
            }
        } else if f.kind@ == "navigation_expression"@ {
            match child_by_field(f, "suffix"@) {
                Some(nav) => match child_by_field(nav, "suffix"@) {
                    Some(m) => {
                        let name = text_or(src, m, seq![]);
                        if valid_name(name, "_"@) {
                            call_visit(parent, name, line_of(n), true)
                        } else {
                            no_visit(parent)
                        }
                    },
                    None => no_visit(parent),
                },
                None => no_visit(parent),
            }
        } else {
            no_visit(parent)
        }
    } else {
        no_visit(parent)
    }
}

/// The label of a declaration keyword.
pub open spec fn swift_keyword_label(t: Seq<char>) -> Seq<char> {
    if t == "class"@ {
        "Class"@
    } else if t == "struct"@ {
        "Struct"@
    } else if t == "enum"@ {
        "Enum"@
    } else if t == "protocol"@ {
        "Protocol"@
    } else {
        "Unknown"@
    }
}

/// The kinds of Swift type declarations, by node kind.
pub open spec fn swift_type_kind_label(k: Seq<char>) -> Option<Seq<char>> {
    if k == "class_declaration"@ {
        Some("Class"@)
    } else if k == "struct_declaration"@ {
        Some("Struct"@)
    } else if k == "enum_declaration"@ {
        Some("Enum"@)
    } else if k == "protocol_declaration"@ {
        Some("Protocol"@)
    } else {
        None
    }
}

/// The label of a Swift type declaration: `Extension` when it has an
/// `extension` child, else by its `declaration_kind` keyword, else by its
/// node kind.
pub open spec fn swift_type_label(n: SyntaxNode, src: Seq<u8>, by_kind: Seq<char>) -> Seq<char> {
    if first_child_of_kind(n, "extension"@) is Some {
        "Extension"@
    } else {
        match child_by_field(n, "declaration_kind"@) {
            Some(dk) => swift_keyword_label(text_or(src, dk, seq![])),
            None => by_kind,
        }
    }
}

/// What a Swift syntax node contributes: a function inside any symbol is a
/// method.
pub open spec fn swift_visit(n: SyntaxNode, parent: Option<Seq<char>>, src: Seq<u8>, path: Seq<char>) -> Visit {
    let k = n.kind@;
    if k == "import_declaration"@ {
        imports_visit(parent, texts_of_kind_from(n.children@, "identifier"@, src, 0), line_of(n))
    } else if k == "call_expression"@ {
        swift_call_visit(n, parent, src)
    } else if k == "function_declaration"@ {
        let label = if parent is Some { "Method"@ } else { "Function"@ };
        decl_visit(n, parent, path, name_or_anonymous(n, src), label, src)
    } else {
        match swift_type_kind_label(k) {
            Some(by_kind) => decl_visit(n, parent, path, name_or_anonymous(n, src), swift_type_label(n, src, by_kind), src),
            None => no_visit(parent),
        }
    }
}

fn swift_call_visit_exec(n: &SyntaxNode, src: &[u8], parent: &Option<String>) -> (r: (FileAnalysis, Option<String>))
    requires
        wf(*n, src@.len()),
    ensures
        r.0@ == swift_call_visit(*n, opt_view(*parent), src@).out,
        opt_view(r.1) == swift_call_visit(*n, opt_view(*parent), src@).active,
{
    proof {
        reveal_strlit("");
        assert(""@ =~= Seq::<char>::empty());
        lemma_wf_children(*n, src@.len());
    }
    if n.children.len() > 0 {
        let f = &n.children[0];
        proof {
            assert(wf(n.children@[0], src@.len()));
        }
        if kind_is(f, "simple_identifier") {
            let name = node_text_or(src, f, "");
            if valid_name_exec(name.as_slice(), "_") {
                call_visit_exec(parent, name.as_slice(), n.start_row + 1, false)
            } else {
                no_visit_exec(parent)
            }
        } else if kind_is(f, "navigation_expression") {
            match child_by_field_name(f, "suffix") {
                Some(nav) => {
                    proof {
                        lemma_child_wf(*f, *nav, src@.len());
                    }
                    match child_by_field_name(nav, "suffix") {
                        Some(m) => {
                            proof {
                                lemma_child_wf(*nav, *m, src@.len());
                            }
                            let name = node_text_or(src, m, "");
                            if valid_name_exec(name.as_slice(), "_") {
                                call_visit_exec(parent, name.as_slice(), n.start_row + 1, true)
                            } else {
                                no_visit_exec(parent)
                            }
                        },
                        None => no_visit_exec(parent),
                    }
                },
                None => no_visit_exec(parent),
            }
        } else {
            no_visit_exec(parent)
        }
    } else {
        no_visit_exec(parent)
    }
}

fn swift_type_label_exec(n: &SyntaxNode, src: &[u8], by_kind: &'static str) -> (r: Vec<char>)
    requires
        wf(*n, src@.len()),
    ensures
        r@ == swift_type_label(*n, src@, by_kind@),
{
    proof {
        reveal_strlit("");
        assert(""@ =~= Seq::<char>::empty());
    }
    if has_child_of_kind(n, "extension") {
        to_chars("Extension")
    } else {
        match child_by_field_name(n, "declaration_kind") {
            Some(dk) => {
                proof {
                    lemma_child_wf(*n, *dk, src@.len());
                }
                let t = node_text_or(src, dk, "");
                let class_kw = to_chars("class");
                let struct_kw = to_chars("struct");
                let enum_kw = to_chars("enum");
                let protocol_kw = to_chars("protocol");
                if chars_eq(t.as_slice(), class_kw.as_slice()) {
                    to_chars("Class")
                } else if chars_eq(t.as_slice(), struct_kw.as_slice()) {
                    to_chars("Struct")
                } else if chars_eq(t.as_slice(), enum_kw.as_slice()) {
                    to_chars("Enum")
                } else if chars_eq(t.as_slice(), protocol_kw.as_slice()) {
                    to_chars("Protocol")
                } else {
                    to_chars("Unknown")
                }
            },
            None => to_chars(by_kind),
        }
    }
}

/// What a Swift syntax node contributes, computed.
pub fn swift_visit_node(n: &SyntaxNode, src: &[u8], path: &str, parent: &Option<String>) -> (r: (FileAnalysis, Option<String>))
    requires
        wf(*n, src@.len()),
    ensures
        r.0@ == swift_visit(*n, opt_view(*parent), src@, path@).out,
        opt_view(r.1) == swift_visit(*n, opt_view(*parent), src@, path@).active,
{
    if kind_is(n, "import_declaration") {
        let paths = texts_of_kind(n, "identifier", src);
        imports_visit_exec(parent, &paths, n.start_row + 1)
    } else if kind_is(n, "call_expression") {
        swift_call_visit_exec(n, src, parent)
    } else if kind_is(n, "function_declaration") {
        let name = name_or_anonymous_exec(n, src);
        let label = match parent {
            Some(_) => "Method",
            None => "Function",
        };
        decl_visit_exec(n, parent, path, name.as_slice(), label, src)
    } else {
        let by_kind: &'static str = if kind_is(n, "class_declaration") {
            "Class"
        } else if kind_is(n, "struct_declaration") {
            "Struct"
        } else if kind_is(n, "enum_declaration") {
            "Enum"
        } else if kind_is(n, "protocol_declaration") {
            "Protocol"
        } else {
            return no_visit_exec(parent);
        };
        let name = name_or_anonymous_exec(n, src);
        let label = swift_type_label_exec(n, src, by_kind);
        let label_text = crate::text::string_from_chars(label.as_slice());
        decl_visit_exec(n, parent, path, name.as_slice(), label_text.as_str(), src)
    }
}

} // verus!
