//! The JavaScript and TypeScript walker.
use crate::parser::shared::{
    call_visit, call_visit_exec, decl_visit, decl_visit_exec, first_child_of_kind,
    first_child_of_kind_exec, import_if_nonempty, import_if_nonempty_exec, lemma_child_wf, line_of,
    name_or_anonymous, name_or_anonymous_exec, no_visit, no_visit_exec, unquoted, unquoted_exec,
    valid_name, valid_name_exec,
};
use crate::parser::syntax::{
    child_by_field, child_by_field_name, kind_is, node_text_or, text_or, wf,
    SyntaxNode,
};
use crate::parser::{analyze_tree, opt_view, parse_outcome, LanguageParser, SourceLanguage, Visit, Walker};
use crate::text::{chars_eq, ends_with_chars, to_chars};
use crate::types::ast::FileAnalysis;
use crate::parser::grammar::{parse_source, Grammar, LoadedGrammar};
use vstd::prelude::*;

verus! {

/// The JavaScript and TypeScript parser.
pub struct JsTsParser;

impl JsTsParser {
    /// Parses JavaScript or TypeScript source, with the TSX grammar for a
    /// `.tsx` path, the TypeScript grammar for a `.ts` path and the
    /// JavaScript grammar otherwise: the walk of the tree that comes back,
    /// or nothing.
    pub fn parse_js_ts(&self, content: &str, file_path: &str) -> (r: FileAnalysis)
        ensures
            parse_outcome(SourceLanguage::JsTs(*self), content@, file_path@, r@),
    {
        let path = to_chars(file_path);
        let tsx = to_chars(".tsx");
        let ts = to_chars(".ts");
        let grammar = if ends_with_chars(path.as_slice(), tsx.as_slice()) {
            LoadedGrammar::load(Grammar::Tsx)
        } else if ends_with_chars(path.as_slice(), ts.as_slice()) {
            LoadedGrammar::load(Grammar::TypeScript)
        } else {
            LoadedGrammar::load(Grammar::JavaScript)
        };
        match parse_source(&grammar, content, None) {
            Some(t) => analyze_tree(Walker::JsTs, &t, content.as_bytes(), file_path),
            None => FileAnalysis::empty(),
        }
    }
}

impl LanguageParser for JsTsParser {
    open spec fn source_language(&self) -> SourceLanguage {
        SourceLanguage::JsTs(*self)
    }

    fn parse(&self, content: &str, file_path: &str) -> FileAnalysis {
        self.parse_js_ts(content, file_path)
    }
}

/// The module a `require(...)` call loads: the first `string` argument,
/// unquoted, when non-empty.
pub open spec fn js_require_path(n: SyntaxNode, src: Seq<u8>) -> Option<Seq<char>> {
    match first_child_of_kind(n, "arguments"@) {
        Some(args) => match first_child_of_kind(args, "string"@) {
            Some(s) => Some(unquoted(src, s)),
            None => None,
        },
        None => None,
    }
}

/// What a JavaScript `call_expression` contributes: `require('m')` is an
/// import of `m`; a call through a member is a method call; another call
/// is a plain call; names are made of letters, digits, `_`, `$` and `:`.
pub open spec fn js_call_visit(n: SyntaxNode, parent: Option<Seq<char>>, src: Seq<u8>) -> Visit {
    match child_by_field(n, "function"@) {
        Some(f) => {
            let name = text_or(src, f, seq![]);
            if name == "require"@ {
                match js_require_path(n, src) {
                    Some(p) => import_if_nonempty(parent, p, line_of(n)),
                    None => no_visit(parent),
                }
            } else if f.kind@ == "member_expression"@ {
                match child_by_field(f, "property"@) {
                    Some(p) => {
                        let m = text_or(src, p, seq![]);
                        if valid_name(m, "_$:"@) {
                            call_visit(parent, m, line_of(n), true)
                        } else {
                            no_visit(parent)
                        }
                    },
                    None => no_visit(parent),
                }
            } else if valid_name(name, "_$:"@) {
                call_visit(parent, name, line_of(n), false)
            } else {
                no_visit(parent)
            }
        },
        None => no_visit(parent),
    }
}

/// The kind label of a JavaScript declaration kind, if it is one.
pub open spec fn js_decl_label(k: Seq<char>) -> Option<Seq<char>> {
    if k == "function_declaration"@ {
        Some("Function"@)
    } else if k == "class_declaration"@ {
        Some("Class"@)
    } else if k == "method_definition"@ {
        Some("Method"@)
    } else if k == "interface_declaration"@ {
        Some("Interface"@)
    } else {
        None
    }
}

/// What a JavaScript or TypeScript syntax node contributes.
pub open spec fn js_visit(n: SyntaxNode, parent: Option<Seq<char>>, src: Seq<u8>, path: Seq<char>) -> Visit {
    let k = n.kind@;
    if k == "import_statement"@ || k == "export_statement"@ {
        match child_by_field(n, "source"@) {
            Some(s) => import_if_nonempty(parent, unquoted(src, s), line_of(n)),
            None => no_visit(parent),
        }
    } else if k == "call_expression"@ {
        js_call_visit(n, parent, src)
    } else {
        match js_decl_label(k) {
            Some(label) => decl_visit(n, parent, path, name_or_anonymous(n, src), label, src),
            None => no_visit(parent),
        }
    }
}

fn js_require_visit_exec(n: &SyntaxNode, src: &[u8], parent: &Option<String>) -> (r: (FileAnalysis, Option<String>))
    requires
        wf(*n, src@.len()),
    ensures
        r.0@ == (match js_require_path(*n, src@) {
            Some(p) => import_if_nonempty(opt_view(*parent), p, line_of(*n)),
            None => no_visit(opt_view(*parent)),
        }).out,
        opt_view(r.1) == (match js_require_path(*n, src@) {
            Some(p) => import_if_nonempty(opt_view(*parent), p, line_of(*n)),
            None => no_visit(opt_view(*parent)),
        }).active,
{
    match first_child_of_kind_exec(n, "arguments") {
        Some(args) => {
            proof {
                lemma_child_wf(*n, *args, src@.len());
            }
            match first_child_of_kind_exec(args, "string") {
                Some(s) => {
                    proof {
                        lemma_child_wf(*args, *s, src@.len());
                    }
                    let p = unquoted_exec(src, s);
                    import_if_nonempty_exec(parent, p, n.start_row + 1)
                },
                None => no_visit_exec(parent),
            }
        },
        None => no_visit_exec(parent),
    }
}

fn js_call_visit_exec(n: &SyntaxNode, src: &[u8], parent: &Option<String>) -> (r: (FileAnalysis, Option<String>))
    requires
        wf(*n, src@.len()),
    ensures
        r.0@ == js_call_visit(*n, opt_view(*parent), src@).out,
        opt_view(r.1) == js_call_visit(*n, opt_view(*parent), src@).active,
{
    proof {
        reveal_strlit("");
        assert(""@ =~= Seq::<char>::empty());
    }
    match child_by_field_name(n, "function") {
        Some(f) => {
            proof {
                lemma_child_wf(*n, *f, src@.len());
            }
            let name = node_text_or(src, f, "");
            let req = to_chars("require");
            if chars_eq(name.as_slice(), req.as_slice()) {
                js_require_visit_exec(n, src, parent)
            } else if kind_is(f, "member_expression") {
                match child_by_field_name(f, "property") {
                    Some(p) => {
                        proof {
                            lemma_child_wf(*f, *p, src@.len());
                        }
                        let m = node_text_or(src, p, "");
                        if valid_name_exec(m.as_slice(), "_$:") {
                            call_visit_exec(parent, m.as_slice(), n.start_row + 1, true)
                        } else {
                            no_visit_exec(parent)
                        }
                    },
                    None => no_visit_exec(parent),
                }
            } else if valid_name_exec(name.as_slice(), "_$:") {
                call_visit_exec(parent, name.as_slice(), n.start_row + 1, false)
            } else {
                no_visit_exec(parent)
            }
        },
        None => no_visit_exec(parent),
    }
}

/// What a JavaScript or TypeScript syntax node contributes, computed.
pub fn js_visit_node(n: &SyntaxNode, src: &[u8], path: &str, parent: &Option<String>) -> (r: (FileAnalysis, Option<String>))
    requires
        wf(*n, src@.len()),
    ensures
        r.0@ == js_visit(*n, opt_view(*parent), src@, path@).out,
        opt_view(r.1) == js_visit(*n, opt_view(*parent), src@, path@).active,
{
    if kind_is(n, "import_statement") || kind_is(n, "export_statement") {
        match child_by_field_name(n, "source") {
            Some(s) => {
                proof {
                    lemma_child_wf(*n, *s, src@.len());
                }
                let p = unquoted_exec(src, s);
                import_if_nonempty_exec(parent, p, n.start_row + 1)
            },
            None => no_visit_exec(parent),
        }
    } else if kind_is(n, "call_expression") {
        js_call_visit_exec(n, src, parent)
    } else {
        let label: &str = if kind_is(n, "function_declaration") {
            "Function"
        } else if kind_is(n, "class_declaration") {
            "Class"
        } else if kind_is(n, "method_definition") {
            "Method"
        } else if kind_is(n, "interface_declaration") {
            "Interface"
        } else {
            return no_visit_exec(parent);
        };
        let name = name_or_anonymous_exec(n, src);
        decl_visit_exec(n, parent, path, name.as_slice(), label, src)
    }
}

} // verus!
