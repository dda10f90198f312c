//! The names the Rust walker records for plain calls: a path call such as
//! `Config::load()` is recorded under its last segment, so a recorded
//! plain call name never holds `::`.
use crate::parser::rust::{last_piece, rust_callee_name, rust_decl_label, rust_decl_name, rust_visit};
use crate::parser::shared::{decl_visit, no_visit};
use crate::parser::syntax::SyntaxNode;
use crate::parser::{parse_file_outcome, visit, walk, walk_children, Walker};
use crate::text::{contains, find, lemma_find_bounds, occurs_at, split};
use crate::types::ast::{append_analysis, empty_analysis, AnalysisView};
use vstd::prelude::*;

verus! {

proof fn lemma_find_occurs(s: Seq<char>, sep: Seq<char>)
    ensures
        find(s, sep) matches Some(i) ==> occurs_at(s, sep, i),
        find(s, sep) is None ==> !contains(s, sep),
{
    lemma_find_bounds(s, sep);
}

/// Splitting at the first occurrence of `sep`.
#[verifier::rlimit(50)]
proof fn lemma_split_step(s: Seq<char>, sep: Seq<char>, i: int)
    requires
        sep.len() > 0,
        find(s, sep) == Some(i),
    ensures
        occurs_at(s, sep, i),
        split(s, sep) == seq![s.take(i)] + split(s.skip(i + sep.len()), sep),
        s =~= s.take(i) + sep + s.skip(i + sep.len()),
{
    lemma_find_occurs(s, sep);
    let c = s.take(i) + sep + s.skip(i + sep.len());
    assert(c.len() == s.len());
    assert forall|k: int| 0 <= k < s.len() implies c[k] == s[k] by {
        if i <= k < i + sep.len() {
            assert(sep[k - i] == s.subrange(i, i + sep.len())[k - i]);
        }
    }
    assert(c =~= s);
}

/// The last piece of splitting `s` at a non-empty `sep` holds no `sep`.
proof fn lemma_split_last_clean(s: Seq<char>, sep: Seq<char>)
    requires
        sep.len() > 0,
    ensures
        split(s, sep).len() > 0,
        !contains(split(s, sep).last(), sep),
    decreases s.len(),
{
    lemma_find_occurs(s, sep);
    if let Some(i) = find(s, sep) {
        lemma_split_step(s, sep, i);
        let rest = s.skip(i + sep.len());
        lemma_split_last_clean(rest, sep);
        let tail = split(rest, sep);
        assert((seq![s.take(i)] + tail).last() == tail.last());
    } else {
        assert(split(s, sep) == seq![s]);
    }
}

/// When `s` holds a non-empty `sep`, it ends with `sep` followed by the
/// last piece of splitting it.
#[verifier::rlimit(50)]
proof fn lemma_split_last_suffix(s: Seq<char>, sep: Seq<char>)
    requires
        sep.len() > 0,
        contains(s, sep),
    ensures
        split(s, sep).len() > 0,
        exists|pre: Seq<char>| s == pre + sep + #[trigger] split(s, sep).last(),
    decreases s.len(),
{
    lemma_find_occurs(s, sep);
    let i = find(s, sep)->0;
    lemma_split_step(s, sep, i);
    let rest = s.skip(i + sep.len());
    let tail = split(rest, sep);
    lemma_split_last_clean(rest, sep);
    assert((seq![s.take(i)] + tail).last() == tail.last());
    if contains(rest, sep) {
        lemma_split_last_suffix(rest, sep);
        let pre = choose|pre: Seq<char>| rest == pre + sep + #[trigger] split(rest, sep).last();
        assert(s =~= (s.take(i) + sep + pre) + sep + tail.last());
    } else {
        lemma_find_occurs(rest, sep);
        assert(tail == seq![rest]);
        assert(s =~= s.take(i) + sep + tail.last());
    }
}

/// The name recorded for a plain call whose callee text is `raw` holds no
/// `::`; when `raw` holds `::`, the name is the text after its last `::`.
pub proof fn lemma_callee_name_is_last_segment(raw: Seq<char>)
    ensures
        !contains(rust_callee_name(raw), "::"@),
        contains(raw, "::"@) ==> exists|pre: Seq<char>| raw == pre + "::"@ + #[trigger] rust_callee_name(raw),
{
    reveal_strlit("::");
    lemma_split_last_clean(raw, "::"@);
    if contains(raw, "::"@) {
        lemma_split_last_suffix(raw, "::"@);
        assert(rust_callee_name(raw) == last_piece(raw, "::"@));
        assert(last_piece(raw, "::"@) == split(raw, "::"@).last());
        let pre = choose|pre: Seq<char>| raw == pre + "::"@ + #[trigger] split(raw, "::"@).last();
        assert(raw == pre + "::"@ + rust_callee_name(raw));
    }
}

/// No recorded plain (non-method) call name holds `::`.
pub open spec fn plain_calls_unqualified(a: AnalysisView) -> bool {
    forall|i: int| 0 <= i < a.calls.len() && !(#[trigger] a.calls[i]).is_method ==> !contains(a.calls[i].name, "::"@)
}

proof fn lemma_rust_visit_calls(n: SyntaxNode, parent: Option<Seq<char>>, src: Seq<u8>, path: Seq<char>)
    ensures
        plain_calls_unqualified(rust_visit(n, parent, src, path).out),
{
    let v = rust_visit(n, parent, src, path);
    let k = n.kind@;
    if k == "call_expression"@ {
        match crate::parser::syntax::child_by_field(n, "function"@) {
            Some(f) => if f.kind@ != "field_expression"@ {
                lemma_callee_name_is_last_segment(crate::parser::syntax::text_or(src, f, seq![]));
            },
            None => {},
        }
    } else if k != "use_declaration"@ && k != "method_call_expression"@ {
        match rust_decl_label(k) {
            Some(label) => assert(v == decl_visit(n, parent, path, rust_decl_name(n, src), label, src)),
            None => assert(v == no_visit(parent)),
        }
        assert(v.out.calls.len() == 0);
    }
}

proof fn lemma_append_calls(a: AnalysisView, b: AnalysisView)
    requires
        plain_calls_unqualified(a),
        plain_calls_unqualified(b),
    ensures
        plain_calls_unqualified(append_analysis(a, b)),
{
    let c = append_analysis(a, b);
    assert forall|i: int| 0 <= i < c.calls.len() && !(#[trigger] c.calls[i]).is_method implies !contains(
        c.calls[i].name,
        "::"@,
    ) by {
        if i < a.calls.len() {
            assert(c.calls[i] == a.calls[i]);
        } else {
            assert(c.calls[i] == b.calls[i - a.calls.len()]);
        }
    }
}

proof fn lemma_rust_walk_calls(n: SyntaxNode, parent: Option<Seq<char>>, src: Seq<u8>, path: Seq<char>, acc: AnalysisView)
    requires
        plain_calls_unqualified(acc),
    ensures
        plain_calls_unqualified(walk(Walker::Rust, n, parent, src, path, acc)),
    decreases n, n.children@.len() + 1,
{
    let v = visit(Walker::Rust, n, parent, src, path, acc);
    assert(v == rust_visit(n, parent, src, path));
    lemma_rust_visit_calls(n, parent, src, path);
    lemma_append_calls(acc, v.out);
    lemma_rust_walk_children_calls(n, n.children@.len() as int, v.active, src, path, append_analysis(acc, v.out));
}

proof fn lemma_rust_walk_children_calls(
    n: SyntaxNode,
    k: int,
    parent: Option<Seq<char>>,
    src: Seq<u8>,
    path: Seq<char>,
    acc: AnalysisView,
)
    requires
        plain_calls_unqualified(acc),
    ensures
        plain_calls_unqualified(walk_children(Walker::Rust, n, k, parent, src, path, acc)),
    decreases n, if k < 0 { 0 } else { k },
{
    if 0 < k <= n.children@.len() {
        lemma_rust_walk_children_calls(n, k - 1, parent, src, path, acc);
        lemma_rust_walk_calls(
            n.children@[k - 1],
            parent,
            src,
            path,
            walk_children(Walker::Rust, n, k - 1, parent, src, path, acc),
        );
    }
}

/// Whatever parsing a `.rs` file yields, no plain call it records is named
/// with a `::` path: a call `A::b()` is recorded as `b`.
pub proof fn lemma_rust_plain_calls_unqualified(path: Seq<char>, content: Seq<char>, r: AnalysisView)
    requires
        crate::paths::path_extension(path) == Some("rs"@),
        parse_file_outcome(path, content, r),
    ensures
        plain_calls_unqualified(r),
{
    match crate::parser::grammar::ts_parse(crate::parser::grammar::Grammar::Rust, content) {
        Some(t) => lemma_rust_walk_calls(t, None, vstd::utf8::encode_utf8(content), path, empty_analysis()),
        None => {},
    }
}

} // verus!
