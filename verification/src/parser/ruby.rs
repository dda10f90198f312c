//! The Ruby walker.
use crate::parser::shared::{
    call_visit, call_visit_exec, decl_visit, decl_visit_exec, import_if_nonempty,
    import_if_nonempty_exec, lemma_child_wf, line_of, name_or_anonymous, name_or_anonymous_exec,
    no_visit, no_visit_exec, unquoted, unquoted_exec, valid_name, valid_name_exec,
};
use crate::parser::syntax::{
    child_by_field, child_by_field_name, kind_is, lemma_wf_children, node_text_or, text_or, wf, SyntaxNode,
};
use crate::parser::{
    analyze_tree, opt_view, parse_outcome, LanguageParser, SourceLanguage, Visit, Walker,
    PARSE_TIMEOUT_MICROS,
};
use crate::text::{chars_eq, to_chars};
use crate::types::ast::FileAnalysis;
use crate::parser::grammar::{parse_source, Grammar, LoadedGrammar};
use vstd::prelude::*;

verus! {

/// The Ruby parser.
pub struct RubyParser;

impl RubyParser {
    /// Parses Ruby source under the parse time limit: the walk of the tree
    /// that comes back, or nothing.
    pub fn parse_ruby(&self, content: &str, file_path: &str) -> (r: FileAnalysis)
        ensures
            parse_outcome(SourceLanguage::Ruby(*self), content@, file_path@, r@),
    {
        let grammar = LoadedGrammar::load(Grammar::Ruby);
        match parse_source(&grammar, content, Some(PARSE_TIMEOUT_MICROS)) {
            Some(t) => analyze_tree(Walker::Ruby, &t, content.as_bytes(), file_path),
            None => FileAnalysis::empty(),
        }
    }
}

impl LanguageParser for RubyParser {
    open spec fn source_language(&self) -> SourceLanguage {
        SourceLanguage::Ruby(*self)
    }

    fn parse(&self, content: &str, file_path: &str) -> FileAnalysis {
        self.parse_ruby(content, file_path)
    }
}

/// A method name that loads another file.
pub open spec fn is_ruby_loader(name: Seq<char>) -> bool {
    name == "require"@ || name == "require_relative"@ || name == "load"@
}

/// What a Ruby `call` contributes, when its method is an identifier:
/// `require`, `require_relative` and `load` import their first argument
/// (unquoted, when non-empty); another valid name is a call, a method
/// call when it has a receiver.
pub open spec fn ruby_call_visit(n: SyntaxNode, parent: Option<Seq<char>>, src: Seq<u8>) -> Visit {
    match child_by_field(n, "method"@) {
        Some(m) => if m.kind@ == "identifier"@ {
            let name = text_or(src, m, seq![]);
            if is_ruby_loader(name) {
                match child_by_field(n, "arguments"@) {
                    Some(args) => if args.children@.len() > 0 {
                        import_if_nonempty(parent, unquoted(src, args.children@[0]), line_of(n))
                    } else {
                        no_visit(parent)
                    },
                    None => no_visit(parent),
                }
            } else if valid_name(name, "_"@) {
                call_visit(parent, name, line_of(n), child_by_field(n, "receiver"@) is Some)
            } else {
                no_visit(parent)
            }
        } else {
            no_visit(parent)
        },
        None => no_visit(parent),
    }
}

/// The kind label of a Ruby declaration kind, if it is one.
pub open spec fn ruby_decl_label(k: Seq<char>) -> Option<Seq<char>> {
    if k == "method"@ || k == "singleton_method"@ {
        Some("Method"@)
    } else if k == "class"@ {
        Some("Class"@)
    } else if k == "module"@ {
        Some("Module"@)
    } else {
        None
    }
}

/// What a Ruby syntax node contributes.
pub open spec fn ruby_visit(n: SyntaxNode, parent: Option<Seq<char>>, src: Seq<u8>, path: Seq<char>) -> Visit {
    if n.kind@ == "call"@ {
        ruby_call_visit(n, parent, src)
    } else {
        match ruby_decl_label(n.kind@) {
            Some(label) => decl_visit(n, parent, path, name_or_anonymous(n, src), label, src),
            None => no_visit(parent),
        }
    }
}

fn ruby_call_visit_exec(n: &SyntaxNode, src: &[u8], parent: &Option<String>) -> (r: (FileAnalysis, Option<String>))
    requires
        wf(*n, src@.len()),
    ensures
        r.0@ == ruby_call_visit(*n, opt_view(*parent), src@).out,
        opt_view(r.1) == ruby_call_visit(*n, opt_view(*parent), src@).active,
{
    proof {
        reveal_strlit("");
        assert(""@ =~= Seq::<char>::empty());
    }
    match child_by_field_name(n, "method") {
        Some(m) => {
            proof {
                lemma_child_wf(*n, *m, src@.len());
            }
            if kind_is(m, "identifier") {
                let name = node_text_or(src, m, "");
                let req = to_chars("require");
                let req_rel = to_chars("require_relative");
                let load = to_chars("load");
                if chars_eq(name.as_slice(), req.as_slice()) || chars_eq(name.as_slice(), req_rel.as_slice())
                    || chars_eq(name.as_slice(), load.as_slice()) {
                    match child_by_field_name(n, "arguments") {
                        Some(args) => {
                            proof {
                                lemma_child_wf(*n, *args, src@.len());
                                lemma_wf_children(*args, src@.len());
                            }
                            if args.children.len() > 0 {
                                proof {
                                    assert(wf(args.children@[0], src@.len()));
                                }
                                let p = unquoted_exec(src, &args.children[0]);
                                import_if_nonempty_exec(parent, p, n.start_row + 1)
                            } else {
                                no_visit_exec(parent)
                            }
                        },
                        None => no_visit_exec(parent),
                    }
                } else if valid_name_exec(name.as_slice(), "_") {
                    let has_receiver = match child_by_field_name(n, "receiver") {
                        Some(_) => true,
                        None => false,
                    };
                    call_visit_exec(parent, name.as_slice(), n.start_row + 1, has_receiver)
                } else {
                    no_visit_exec(parent)
                }
            } else {
                no_visit_exec(parent)
            }
        },
        None => no_visit_exec(parent),
    }
}

/// What a Ruby syntax node contributes, computed.
pub fn ruby_visit_node(n: &SyntaxNode, src: &[u8], path: &str, parent: &Option<String>) -> (r: (FileAnalysis, Option<String>))
    requires
        wf(*n, src@.len()),
    ensures
        r.0@ == ruby_visit(*n, opt_view(*parent), src@, path@).out,
        opt_view(r.1) == ruby_visit(*n, opt_view(*parent), src@, path@).active,
{
    if kind_is(n, "call") {
        ruby_call_visit_exec(n, src, parent)
    } else {
        let label: &str = if kind_is(n, "method") || kind_is(n, "singleton_method") {
            "Method"
        } else if kind_is(n, "class") {
            "Class"
        } else if kind_is(n, "module") {
            "Module"
        } else {
            return no_visit_exec(parent);
        };
        let name = name_or_anonymous_exec(n, src);
        decl_visit_exec(n, parent, path, name.as_slice(), label, src)
    }
}

} // verus!
