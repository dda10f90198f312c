//! The containment structure of what the Rust walker records: every symbol
//! comes with exactly one `CONTAINS` edge, into it, from the file or from a
//! symbol recorded before it.
use crate::parser::shared::{base_id, decl_visit, no_visit};
use crate::parser::syntax::SyntaxNode;
use crate::parser::rust::{rust_decl_label, rust_decl_name, rust_visit};
use crate::parser::{parse_file_outcome, visit, walk, walk_children, Walker};
use crate::types::ast::{append_analysis, empty_analysis, AnalysisView, NodeView};
use vstd::prelude::*;

verus! {

/// `a` records one edge per symbol, in the same order: edge `i` is a
/// `CONTAINS` edge into symbol `i`, whose id is the edge's source, `::` and
/// the symbol's name, and whose source is the file at `path` or a symbol
/// recorded before symbol `i`.
pub open spec fn containment_ok(a: AnalysisView, path: Seq<char>) -> bool {
    &&& a.edges.len() == a.nodes.len()
    &&& forall|i: int| #![trigger a.edges[i]] 0 <= i < a.nodes.len() ==> {
        &&& a.edges[i].edge_type == "CONTAINS"@
        &&& a.edges[i].to_id == a.nodes[i].id
        &&& a.nodes[i].id == a.edges[i].from_id + "::"@ + a.nodes[i].name
        &&& (a.edges[i].from_id == path || exists|j: int| 0 <= j < i && #[trigger] a.nodes[j].id == a.edges[i].from_id)
    }
}

/// The enclosing symbol, when there is one, is among `nodes`.
pub open spec fn active_recorded(parent: Option<Seq<char>>, nodes: Seq<NodeView>) -> bool {
    match parent {
        Some(p) => exists|j: int| 0 <= j < nodes.len() && #[trigger] nodes[j].id == p,
        None => true,
    }
}

/// `b` starts with `a`.
pub open spec fn nodes_extend(a: Seq<NodeView>, b: Seq<NodeView>) -> bool {
    a.len() <= b.len() && forall|i: int| 0 <= i < a.len() ==> #[trigger] b[i] == a[i]
}

/// One Rust node's contribution keeps the containment structure, and the
/// symbol it leaves active is recorded.
proof fn lemma_rust_visit(n: SyntaxNode, parent: Option<Seq<char>>, src: Seq<u8>, path: Seq<char>, acc: AnalysisView)
    requires
        containment_ok(acc, path),
        active_recorded(parent, acc.nodes),
    ensures
        ({
            let v = visit(Walker::Rust, n, parent, src, path, acc);
            let next = append_analysis(acc, v.out);
            &&& containment_ok(next, path)
            &&& active_recorded(v.active, next.nodes)
            &&& nodes_extend(acc.nodes, next.nodes)
        }),
{
    let v = visit(Walker::Rust, n, parent, src, path, acc);
    let next = append_analysis(acc, v.out);
    let k = n.kind@;
    assert(v == rust_visit(n, parent, src, path));
    if k != "use_declaration"@ && k != "method_call_expression"@ && k != "call_expression"@
        && rust_decl_label(k) is Some {
        let name = rust_decl_name(n, src);
        let id = base_id(parent, path) + "::"@ + name;
        assert(v == decl_visit(n, parent, path, name, rust_decl_label(k)->0, src));
        let m = acc.nodes.len() as int;
        assert(next.nodes == acc.nodes.push(v.out.nodes[0]));
        assert(next.edges == acc.edges.push(v.out.edges[0]));
        assert forall|i: int| #![trigger next.edges[i]] 0 <= i < next.nodes.len() implies {
            &&& next.edges[i].edge_type == "CONTAINS"@
            &&& next.edges[i].to_id == next.nodes[i].id
            &&& next.nodes[i].id == next.edges[i].from_id + "::"@ + next.nodes[i].name
            &&& (next.edges[i].from_id == path || exists|j: int| 0 <= j < i && #[trigger] next.nodes[j].id == next.edges[i].from_id)
        } by {
            if i < m {
                assert(next.edges[i] == acc.edges[i]);
                assert(next.nodes[i] == acc.nodes[i]);
                if next.edges[i].from_id != path {
                    let j = choose|j: int| 0 <= j < i && #[trigger] acc.nodes[j].id == acc.edges[i].from_id;
                    assert(next.nodes[j] == acc.nodes[j]);
                }
            } else {
                assert(i == m);
                match parent {
                    Some(p) => {
                        let j = choose|j: int| 0 <= j < acc.nodes.len() && #[trigger] acc.nodes[j].id == p;
                        assert(next.nodes[j] == acc.nodes[j]);
                    },
                    None => {},
                }
            }
        }
        assert(next.nodes[m].id == id);
    } else {
        if k == "use_declaration"@ || k == "method_call_expression"@ || k == "call_expression"@ {
            assert(v.out.nodes.len() == 0 && v.out.edges.len() == 0 && v.active == parent);
        } else {
            assert(v == no_visit(parent));
        }
        assert(next.nodes =~= acc.nodes);
        assert(next.edges =~= acc.edges);
    }
}

/// The Rust walk of `n` keeps the containment structure and only adds
/// symbols after those already recorded.
proof fn lemma_rust_walk(n: SyntaxNode, parent: Option<Seq<char>>, src: Seq<u8>, path: Seq<char>, acc: AnalysisView)
    requires
        containment_ok(acc, path),
        active_recorded(parent, acc.nodes),
    ensures
        containment_ok(walk(Walker::Rust, n, parent, src, path, acc), path),
        nodes_extend(acc.nodes, walk(Walker::Rust, n, parent, src, path, acc).nodes),
    decreases n, n.children@.len() + 1,
{
    let v = visit(Walker::Rust, n, parent, src, path, acc);
    let next = append_analysis(acc, v.out);
    lemma_rust_visit(n, parent, src, path, acc);
    lemma_rust_walk_children(n, n.children@.len() as int, v.active, src, path, next);
}

/// The Rust walks of the first `k` children of `n` keep the containment
/// structure and only add symbols.
proof fn lemma_rust_walk_children(n: SyntaxNode, k: int, parent: Option<Seq<char>>, src: Seq<u8>, path: Seq<char>, acc: AnalysisView)
    requires
        containment_ok(acc, path),
        active_recorded(parent, acc.nodes),
    ensures
        containment_ok(walk_children(Walker::Rust, n, k, parent, src, path, acc), path),
        nodes_extend(acc.nodes, walk_children(Walker::Rust, n, k, parent, src, path, acc).nodes),
    decreases n, if k < 0 { 0 } else { k },
{
    if k <= 0 || k > n.children@.len() {
    } else {
        let before = walk_children(Walker::Rust, n, k - 1, parent, src, path, acc);
        lemma_rust_walk_children(n, k - 1, parent, src, path, acc);
        if let Some(p) = parent {
            let j = choose|j: int| 0 <= j < acc.nodes.len() && #[trigger] acc.nodes[j].id == p;
            assert(before.nodes[j] == acc.nodes[j]);
        }
        lemma_rust_walk(n.children@[k - 1], parent, src, path, before);
        let after = walk_children(Walker::Rust, n, k, parent, src, path, acc);
        assert forall|i: int| 0 <= i < acc.nodes.len() implies #[trigger] after.nodes[i] == acc.nodes[i] by {
            assert(before.nodes[i] == acc.nodes[i]);
        }
    }
}

/// The Rust walk of a whole tree records one `CONTAINS` edge per symbol,
/// in the same order: edge `i` points at symbol `i`, whose id is the edge's
/// source, `::` and its name, and whose container is the file or a symbol
/// recorded before it.
pub proof fn lemma_rust_containment(root: SyntaxNode, src: Seq<u8>, path: Seq<char>)
    ensures
        containment_ok(walk(Walker::Rust, root, None, src, path, empty_analysis()), path),
{
    lemma_rust_walk(root, None, src, path, empty_analysis());
}

/// Whatever parsing a `.rs` file yields, its symbols and edges have the
/// containment structure of `containment_ok`.
pub proof fn lemma_rust_file_containment(path: Seq<char>, content: Seq<char>, r: AnalysisView)
    requires
        crate::paths::path_extension(path) == Some("rs"@),
        parse_file_outcome(path, content, r),
    ensures
        containment_ok(r, path),
{
    match crate::parser::grammar::ts_parse(crate::parser::grammar::Grammar::Rust, content) {
        Some(t) => lemma_rust_containment(t, vstd::utf8::encode_utf8(content), path),
        None => {},
    }
}

} // verus!
