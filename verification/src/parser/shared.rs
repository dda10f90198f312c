//! The pieces every language walker is built from: symbol ids, the
//! contribution of a declaration, a call or imports, and the checks on
//! call names.
use crate::parser::syntax::{
    child_by_field, child_by_field_name, extract_signature, lemma_wf_children, node_text_or,
    signature_of, text_or, wf, SyntaxNode,
};
use crate::parser::{clone_opt, opt_view, Visit};
use crate::text::{alphanumeric, is_alphanumeric, owned, push_all, push_str, str_eq, string_from_chars, to_chars, views};
use crate::types::ast::node_views;
use crate::types::ast::{
    append_analysis, empty_analysis, AnalysisView, CallView, EdgeData, EdgeView, FileAnalysis, ImportView, NodeData,
    NodeView, RawCall, RawImport,
};
use vstd::prelude::*;

verus! {

/// The id under which a symbol named `name` is recorded: its enclosing
/// symbol's id (or the file path at top level), `::`, and the name.
pub open spec fn qualify(parent: Option<Seq<char>>, path: Seq<char>, name: Seq<char>) -> Seq<char> {
    base_id(parent, path) + "::"@ + name
}

/// The id that encloses a new symbol: the active symbol, or the file.
pub open spec fn base_id(parent: Option<Seq<char>>, path: Seq<char>) -> Seq<char> {
    match parent {
        Some(p) => p,
        None => path,
    }
}

/// The one-based line on which `n` starts.
pub open spec fn line_of(n: SyntaxNode) -> int {
    n.start_row + 1
}

/// The record of declaration `n` named `name` with kind label `label`.
pub open spec fn decl_node(n: SyntaxNode, id: Seq<char>, name: Seq<char>, label: Seq<char>, src: Seq<u8>) -> NodeView {
    NodeView {
        id,
        name,
        kind: label,
        start_line: n.start_row + 1,
        start_col: n.start_col + 1,
        end_line: n.end_row + 1,
        signature: signature_of(src, n),
    }
}

/// A declaration's contribution: its record and the containment edge from
/// its enclosing symbol (or file); it becomes the active symbol.
pub open spec fn decl_visit(n: SyntaxNode, parent: Option<Seq<char>>, path: Seq<char>, name: Seq<char>, label: Seq<char>, src: Seq<u8>) -> Visit {
    let id = qualify(parent, path, name);
    Visit {
        out: AnalysisView {
            nodes: seq![decl_node(n, id, name, label, src)],
            edges: seq![EdgeView { from_id: base_id(parent, path), to_id: id, edge_type: "CONTAINS"@ }],
            imports: seq![],
            calls: seq![],
        },
        active: Some(id),
    }
}

/// A contribution of nothing that leaves the enclosing symbol active.
pub open spec fn no_visit(parent: Option<Seq<char>>) -> Visit {
    Visit { out: empty_analysis(), active: parent }
}

/// A contribution of one call.
pub open spec fn call_visit(parent: Option<Seq<char>>, name: Seq<char>, line: int, is_method: bool) -> Visit {
    Visit {
        out: AnalysisView {
            nodes: seq![],
            edges: seq![],
            imports: seq![],
            calls: seq![CallView { name, line, is_method }],
        },
        active: parent,
    }
}

/// A contribution of imports.
pub open spec fn imports_visit(parent: Option<Seq<char>>, paths: Seq<Seq<char>>, line: int) -> Visit {
    Visit {
        out: AnalysisView {
            nodes: seq![],
            edges: seq![],
            imports: paths.map_values(|p: Seq<char>| ImportView { path: p, line }),
            calls: seq![],
        },
        active: parent,
    }
}

/// The id of a new symbol under `parent` (or the file).
pub fn qualify_exec(parent: &Option<String>, path: &str, name: &[char]) -> (r: Vec<char>)
    ensures
        r@ == qualify(opt_view(*parent), path@, name@),
{
    let mut r = base_id_exec(parent, path);
    push_str(&mut r, "::");
    push_all(&mut r, name);
    r
}

/// The enclosing id: the active symbol, or the file path.
pub fn base_id_exec(parent: &Option<String>, path: &str) -> (r: Vec<char>)
    ensures
        r@ == base_id(opt_view(*parent), path@),
{
    match parent {
        Some(p) => to_chars(p.as_str()),
        None => to_chars(path),
    }
}

/// Builds a declaration's contribution.
pub fn decl_visit_exec(n: &SyntaxNode, parent: &Option<String>, path: &str, name: &[char], label: &str, src: &[u8]) -> (r: (FileAnalysis, Option<String>))
    requires
        wf(*n, src@.len()),
    ensures
        r.0@ == decl_visit(*n, opt_view(*parent), path@, name@, label@, src@).out,
        opt_view(r.1) == decl_visit(*n, opt_view(*parent), path@, name@, label@, src@).active,
{
    let id = qualify_exec(parent, path, name);
    let from = base_id_exec(parent, path);
    let signature = extract_signature(n, src);
    let node = NodeData {
        id: string_from_chars(id.as_slice()),
        name: string_from_chars(name),
        kind: owned(label),
        start_line: n.start_row + 1,
        start_col: n.start_col + 1,
        end_line: n.end_row + 1,
        signature,
    };
    let edge = EdgeData {
        from_id: string_from_chars(from.as_slice()),
        to_id: string_from_chars(id.as_slice()),
        edge_type: owned("CONTAINS"),
    };
    let mut out = FileAnalysis::empty();
    out.nodes.push(node);
    out.edges.push(edge);
    let ghost v = decl_visit(*n, opt_view(*parent), path@, name@, label@, src@);
    proof {
        assert(out@.nodes =~= v.out.nodes);
        assert(out@.edges =~= v.out.edges);
        assert(out@.imports =~= v.out.imports);
        assert(out@.calls =~= v.out.calls);
    }
    (out, Some(string_from_chars(id.as_slice())))
}

/// Builds the contribution of nothing.
pub fn no_visit_exec(parent: &Option<String>) -> (r: (FileAnalysis, Option<String>))
    ensures
        r.0@ == no_visit(opt_view(*parent)).out,
        opt_view(r.1) == no_visit(opt_view(*parent)).active,
{
    (FileAnalysis::empty(), clone_opt(parent))
}

/// Builds the contribution of one call.
pub fn call_visit_exec(parent: &Option<String>, name: &[char], line: usize, is_method: bool) -> (r: (FileAnalysis, Option<String>))
    ensures
        r.0@ == call_visit(opt_view(*parent), name@, line as int, is_method).out,
        opt_view(r.1) == call_visit(opt_view(*parent), name@, line as int, is_method).active,
{
    let mut out = FileAnalysis::empty();
    out.calls.push(RawCall { name: string_from_chars(name), line, is_method });
    let ghost v = call_visit(opt_view(*parent), name@, line as int, is_method);
    proof {
        assert(out@.nodes =~= v.out.nodes);
        assert(out@.edges =~= v.out.edges);
        assert(out@.imports =~= v.out.imports);
        assert(out@.calls =~= v.out.calls);
    }
    (out, clone_opt(parent))
}

/// Builds a contribution of imports.
pub fn imports_visit_exec(parent: &Option<String>, paths: &Vec<Vec<char>>, line: usize) -> (r: (FileAnalysis, Option<String>))
    ensures
        r.0@ == imports_visit(opt_view(*parent), views(paths@), line as int).out,
        opt_view(r.1) == imports_visit(opt_view(*parent), views(paths@), line as int).active,
{
    let mut out = FileAnalysis::empty();
    let ghost want = views(paths@).map_values(|p: Seq<char>| ImportView { path: p, line: line as int });
    let mut i: usize = 0;
    while i < paths.len()
        invariant
            i <= paths@.len(),
            want == views(paths@).map_values(|p: Seq<char>| ImportView { path: p, line: line as int }),
            out@.imports == want.take(i as int),
            out@.nodes == Seq::<NodeView>::empty(),
            out@.edges == Seq::<EdgeView>::empty(),
            out@.calls == Seq::<CallView>::empty(),
        decreases paths.len() - i,
    {
        let ghost before = out@.imports;
        let imp = RawImport { path: string_from_chars(paths[i].as_slice()), line };
        proof {
            assert(views(paths@)[i as int] == paths@[i as int]@);
            assert(imp@ == want[i as int]);
        }
        out.imports.push(imp);
        proof {
            assert(out@.imports =~= before.push(imp@));
            assert(want.take(i + 1) =~= want.take(i as int).push(want[i as int]));
        }
        i = i + 1;
    }
    proof {
        assert(want.take(paths@.len() as int) =~= want);
    }
    (out, clone_opt(parent))
}

/// `s[from..]`.
pub fn skip_chars(s: &[char], from: usize) -> (r: Vec<char>)
    requires
        from <= s.len(),
    ensures
        r@ == s@.skip(from as int),
{
    let mut r: Vec<char> = Vec::new();
    let mut i: usize = from;
    while i < s.len()
        invariant
            from <= i <= s.len(),
            r@ == s@.subrange(from as int, i as int),
        decreases s.len() - i,
    {
        r.push(s[i]);
        proof {
            assert(s@.subrange(from as int, i + 1) =~= s@.subrange(from as int, i as int).push(s@[i as int]));
        }
        i = i + 1;
    }
    proof {
        assert(s@.subrange(from as int, s@.len() as int) =~= s@.skip(from as int));
    }
    r
}

/// `s[from..to]`.
pub fn sub_chars(s: &[char], from: usize, to: usize) -> (r: Vec<char>)
    requires
        from <= to <= s.len(),
    ensures
        r@ == s@.subrange(from as int, to as int),
{
    let mut r: Vec<char> = Vec::new();
    let mut i: usize = from;
    while i < to
        invariant
            from <= i <= to <= s.len(),
            r@ == s@.subrange(from as int, i as int),
        decreases to - i,
    {
        r.push(s[i]);
        proof {
            assert(s@.subrange(from as int, i + 1) =~= s@.subrange(from as int, i as int).push(s@[i as int]));
        }
        i = i + 1;
    }
    r
}

/// Every child of `n` lies within the source.
pub proof fn lemma_child_wf(n: SyntaxNode, c: SyntaxNode, len: nat)
    requires
        wf(n, len),
        exists|i: int| 0 <= i < n.children@.len() && n.children@[i] == c,
    ensures
        wf(c, len),
{
    lemma_wf_children(n, len);
    let i = choose|i: int| 0 <= i < n.children@.len() && n.children@[i] == c;
    assert(wf(n.children@[i], len));
}


/// `c` may stand in a call name: a letter or digit, or one of `extra`.
pub open spec fn name_char(c: char, extra: Seq<char>) -> bool {
    alphanumeric(c) || extra.contains(c)
}

/// `s` is a non-empty name made of letters, digits and `extra`.
pub open spec fn valid_name(s: Seq<char>, extra: Seq<char>) -> bool {
    s.len() > 0 && forall|i: int| 0 <= i < s.len() ==> name_char(#[trigger] s[i], extra)
}

/// Whether `s` is a non-empty name made of letters, digits and `extra`.
pub fn valid_name_exec(s: &[char], extra: &str) -> (r: bool)
    ensures
        r == valid_name(s@, extra@),
{
    if s.len() == 0 {
        return false;
    }
    let ex = to_chars(extra);
    let mut i: usize = 0;
    while i < s.len()
        invariant
            i <= s.len(),
            ex@ == extra@,
            forall|j: int| 0 <= j < i ==> name_char(#[trigger] s@[j], extra@),
        decreases s.len() - i,
    {
        let c = s[i];
        let mut found = false;
        let mut k: usize = 0;
        while k < ex.len()
            invariant
                k <= ex.len(),
                found <==> exists|m: int| 0 <= m < k && ex@[m] == c,
            decreases ex.len() - k,
        {
            if ex[k] == c {
                found = true;
            }
            k = k + 1;
        }
        proof {
            if found {
                let m = choose|m: int| 0 <= m < ex@.len() && ex@[m] == c;
                assert(extra@.contains(c));
            } else {
                assert(!extra@.contains(c));
            }
        }
        if !(is_alphanumeric(c) || found) {
            return false;
        }
        i = i + 1;
    }
    true
}

/// The name a declaration records: the text under its `name` field, or
/// `anonymous`.
pub open spec fn name_or_anonymous(n: SyntaxNode, src: Seq<u8>) -> Seq<char> {
    match child_by_field(n, "name"@) {
        Some(nm) => text_or(src, nm, "anonymous"@),
        None => "anonymous"@,
    }
}

/// The name a declaration records, computed.
pub fn name_or_anonymous_exec(n: &SyntaxNode, src: &[u8]) -> (r: Vec<char>)
    requires
        wf(*n, src@.len()),
    ensures
        r@ == name_or_anonymous(*n, src@),
{
    match child_by_field_name(n, "name") {
        Some(nm) => {
            proof {
                lemma_child_wf(*n, *nm, src@.len());
            }
            node_text_or(src, nm, "anonymous")
        },
        None => to_chars("anonymous"),
    }
}

/// The first position from `i` on of a record with id `id`.
pub open spec fn node_index_from(nodes: Seq<NodeView>, id: Seq<char>, i: int) -> Option<int>
    decreases nodes.len() - i,
{
    if i < 0 || i >= nodes.len() {
        None
    } else if nodes[i].id == id {
        Some(i)
    } else {
        node_index_from(nodes, id, i + 1)
    }
}

/// The active symbol was recorded (first under its id) with kind `kind`.
pub open spec fn parent_is_kind(nodes: Seq<NodeView>, parent: Option<Seq<char>>, kind: Seq<char>) -> bool {
    match parent {
        Some(p) => match node_index_from(nodes, p, 0) {
            Some(i) => nodes[i].kind == kind,
            None => false,
        },
        None => false,
    }
}

proof fn lemma_node_index_from(nodes: Seq<NodeView>, id: Seq<char>, i: int)
    ensures
        node_index_from(nodes, id, i) matches Some(k) ==> 0 <= i <= k < nodes.len(),
    decreases nodes.len() - i,
{
    if 0 <= i < nodes.len() {
        lemma_node_index_from(nodes, id, i + 1);
    }
}

/// Whether the active symbol was recorded (first under its id) with kind
/// `kind`.
pub fn parent_is_kind_exec(nodes: &Vec<NodeData>, parent: &Option<String>, kind: &str) -> (r: bool)
    ensures
        r == parent_is_kind(node_views(nodes@), opt_view(*parent), kind@),
{
    let ghost nv = node_views(nodes@);
    match parent {
        Some(p) => {
            let mut i: usize = 0;
            while i < nodes.len()
                invariant
                    i <= nodes@.len(),
                    nv == node_views(nodes@),
                    opt_view(*parent) == Some(p@),
                    node_index_from(nv, p@, 0) == node_index_from(nv, p@, i as int),
                decreases nodes.len() - i,
            {
                if str_eq(nodes[i].id.as_str(), p.as_str()) {
                    proof {
                        assert(nv[i as int].id == nodes@[i as int].id@);
                        assert(nv[i as int].kind == nodes@[i as int].kind@);
                        assert(node_index_from(nv, p@, i as int) == Some(i as int));
                    }
                    return str_eq(nodes[i].kind.as_str(), kind);
                }
                i = i + 1;
            }
            false
        },
        None => false,
    }
}

/// Appends `part` to `out`, part by part.
pub fn extend_analysis(out: &mut FileAnalysis, part: FileAnalysis)
    ensures
        final(out)@ == append_analysis(old(out)@, part@),
{
    let mut part = part;
    let ghost p = part@;
    out.nodes.append(&mut part.nodes);
    out.edges.append(&mut part.edges);
    out.imports.append(&mut part.imports);
    out.calls.append(&mut part.calls);
    proof {
        assert(out@.nodes =~= old(out)@.nodes + p.nodes);
        assert(out@.edges =~= old(out)@.edges + p.edges);
        assert(out@.imports =~= old(out)@.imports + p.imports);
        assert(out@.calls =~= old(out)@.calls + p.calls);
    }
}

/// Whether `c` is one of `set`.
pub fn char_in(c: char, set: &[char]) -> (r: bool)
    ensures
        r == set@.contains(c),
{
    let mut k: usize = 0;
    while k < set.len()
        invariant
            k <= set.len(),
            forall|m: int| 0 <= m < k ==> set@[m] != c,
        decreases set.len() - k,
    {
        if set[k] == c {
            return true;
        }
        k = k + 1;
    }
    false
}

/// `s` without its leading characters from `set` (std's
/// `trim_start_matches` with a set of characters).
pub open spec fn strip_start(s: Seq<char>, set: Seq<char>) -> Seq<char>
    decreases s.len(),
{
    if s.len() > 0 && set.contains(s[0]) {
        strip_start(s.drop_first(), set)
    } else {
        s
    }
}

/// `s` without its trailing characters from `set`.
pub open spec fn strip_end(s: Seq<char>, set: Seq<char>) -> Seq<char>
    decreases s.len(),
{
    if s.len() > 0 && set.contains(s.last()) {
        strip_end(s.drop_last(), set)
    } else {
        s
    }
}

/// Removes the leading characters from `set`.
pub fn strip_start_exec(s: &[char], set: &str) -> (r: Vec<char>)
    ensures
        r@ == strip_start(s@, set@),
{
    let cs = to_chars(set);
    let mut lo: usize = 0;
    proof {
        assert(s@.skip(0) =~= s@);
    }
    while lo < s.len() && char_in(s[lo], cs.as_slice())
        invariant
            lo <= s.len(),
            cs@ == set@,
            strip_start(s@, set@) == strip_start(s@.skip(lo as int), set@),
        decreases s.len() - lo,
    {
        proof {
            assert(s@.skip(lo as int).drop_first() =~= s@.skip(lo + 1));
        }
        lo = lo + 1;
    }
    skip_chars(s, lo)
}

/// Removes the trailing characters from `set`.
pub fn strip_end_exec(s: &[char], set: &str) -> (r: Vec<char>)
    ensures
        r@ == strip_end(s@, set@),
{
    let cs = to_chars(set);
    let mut hi: usize = s.len();
    proof {
        assert(s@.take(s@.len() as int) =~= s@);
    }
    while hi > 0 && char_in(s[hi - 1], cs.as_slice())
        invariant
            hi <= s.len(),
            cs@ == set@,
            strip_end(s@, set@) == strip_end(s@.take(hi as int), set@),
        decreases hi,
    {
        proof {
            assert(s@.take(hi as int).drop_last() =~= s@.take(hi - 1));
        }
        hi = hi - 1;
    }
    let r = sub_chars(s, 0, hi);
    proof {
        assert(s@.subrange(0, hi as int) =~= s@.take(hi as int));
    }
    r
}

/// The position of the first of `cs[i..]` whose kind is `kind`.
pub open spec fn kind_index_from(cs: Seq<SyntaxNode>, kind: Seq<char>, i: int) -> Option<int>
    decreases cs.len() - i,
{
    if i < 0 || i >= cs.len() {
        None
    } else if cs[i].kind@ == kind {
        Some(i)
    } else {
        kind_index_from(cs, kind, i + 1)
    }
}

/// The first child of `n` whose kind is `kind`.
pub open spec fn first_child_of_kind(n: SyntaxNode, kind: Seq<char>) -> Option<SyntaxNode> {
    match kind_index_from(n.children@, kind, 0) {
        Some(i) => Some(n.children@[i]),
        None => None,
    }
}

/// The first child of `n` whose kind is `kind`, found.
pub fn first_child_of_kind_exec<'a>(n: &'a SyntaxNode, kind: &str) -> (r: Option<&'a SyntaxNode>)
    ensures
        r matches Some(c) ==> first_child_of_kind(*n, kind@) == Some(*c),
        r is None ==> first_child_of_kind(*n, kind@) is None,
        r matches Some(c) ==> exists|i: int| 0 <= i < n.children@.len() && n.children@[i] == *c,
{
    let mut i: usize = 0;
    while i < n.children.len()
        invariant
            i <= n.children@.len(),
            kind_index_from(n.children@, kind@, 0) == kind_index_from(n.children@, kind@, i as int),
        decreases n.children.len() - i,
    {
        if crate::text::str_eq(n.children[i].kind.as_str(), kind) {
            return Some(&n.children[i]);
        }
        i = i + 1;
    }
    None
}

/// The text of `n` without surrounding quotes (`'` and `"`).
pub open spec fn unquoted(src: Seq<u8>, n: SyntaxNode) -> Seq<char> {
    strip_end(strip_start(text_or(src, n, seq![]), "'\""@), "'\""@)
}

/// The text of `n` without surrounding quotes, computed.
pub fn unquoted_exec(src: &[u8], n: &SyntaxNode) -> (r: Vec<char>)
    requires
        n.start_byte <= n.end_byte <= src@.len(),
    ensures
        r@ == unquoted(src@, *n),
{
    proof {
        reveal_strlit("");
        assert(""@ =~= Seq::<char>::empty());
    }
    let raw = node_text_or(src, n, "");
    let a = strip_start_exec(raw.as_slice(), "'\"");
    strip_end_exec(a.as_slice(), "'\"")
}

/// A contribution of one import, when its path is non-empty.
pub open spec fn import_if_nonempty(parent: Option<Seq<char>>, p: Seq<char>, line: int) -> Visit {
    if p.len() > 0 {
        imports_visit(parent, seq![p], line)
    } else {
        no_visit(parent)
    }
}

/// Builds the contribution of one import, when its path is non-empty.
pub fn import_if_nonempty_exec(parent: &Option<String>, p: Vec<char>, line: usize) -> (r: (FileAnalysis, Option<String>))
    ensures
        r.0@ == import_if_nonempty(opt_view(*parent), p@, line as int).out,
        opt_view(r.1) == import_if_nonempty(opt_view(*parent), p@, line as int).active,
{
    if p.len() > 0 {
        let mut paths: Vec<Vec<char>> = Vec::new();
        let ghost pv = p@;
        paths.push(p);
        proof {
            assert(views(paths@) =~= seq![pv]);
        }
        imports_visit_exec(parent, &paths, line)
    } else {
        no_visit_exec(parent)
    }
}

/// The position of the first of `cs[i..]` whose kind is `a` or `b`.
pub open spec fn either_index_from(cs: Seq<SyntaxNode>, a: Seq<char>, b: Seq<char>, i: int) -> Option<int>
    decreases cs.len() - i,
{
    if i < 0 || i >= cs.len() {
        None
    } else if cs[i].kind@ == a || cs[i].kind@ == b {
        Some(i)
    } else {
        either_index_from(cs, a, b, i + 1)
    }
}

/// The first child of `n` whose kind is `a` or `b`.
pub open spec fn first_child_of_either(n: SyntaxNode, a: Seq<char>, b: Seq<char>) -> Option<SyntaxNode> {
    match either_index_from(n.children@, a, b, 0) {
        Some(i) => Some(n.children@[i]),
        None => None,
    }
}

/// The first child of `n` whose kind is `a` or `b`, found.
pub fn first_child_of_either_exec<'a>(n: &'a SyntaxNode, a: &str, b: &str) -> (r: Option<&'a SyntaxNode>)
    ensures
        r matches Some(c) ==> first_child_of_either(*n, a@, b@) == Some(*c),
        r is None ==> first_child_of_either(*n, a@, b@) is None,
        r matches Some(c) ==> exists|i: int| 0 <= i < n.children@.len() && n.children@[i] == *c,
{
    let mut i: usize = 0;
    while i < n.children.len()
        invariant
            i <= n.children@.len(),
            either_index_from(n.children@, a@, b@, 0) == either_index_from(n.children@, a@, b@, i as int),
        decreases n.children.len() - i,
    {
        if str_eq(n.children[i].kind.as_str(), a) || str_eq(n.children[i].kind.as_str(), b) {
            return Some(&n.children[i]);
        }
        i = i + 1;
    }
    None
}

/// The non-empty texts of the children of kind `kind` among `cs[i..]`, in
/// order.
pub open spec fn texts_of_kind_from(cs: Seq<SyntaxNode>, kind: Seq<char>, src: Seq<u8>, i: int) -> Seq<Seq<char>>
    decreases cs.len() - i,
{
    if i < 0 || i >= cs.len() {
        seq![]
    } else {
        let t = text_or(src, cs[i], seq![]);
        let head = if cs[i].kind@ == kind && t.len() > 0 { seq![t] } else { seq![] };
        head + texts_of_kind_from(cs, kind, src, i + 1)
    }
}

/// The non-empty texts of the children of `n` of kind `kind`, in order.
pub fn texts_of_kind(n: &SyntaxNode, kind: &str, src: &[u8]) -> (r: Vec<Vec<char>>)
    requires
        wf(*n, src@.len()),
    ensures
        views(r@) == texts_of_kind_from(n.children@, kind@, src@, 0),
{
    proof {
        lemma_wf_children(*n, src@.len());
        reveal_strlit("");
        assert(""@ =~= Seq::<char>::empty());
    }
    let ghost cs = n.children@;
    let mut out: Vec<Vec<char>> = Vec::new();
    let mut i: usize = 0;
    while i < n.children.len()
        invariant
            i <= cs.len(),
            cs == n.children@,
            ""@ =~= Seq::<char>::empty(),
            forall|j: int| 0 <= j < cs.len() ==> wf(#[trigger] cs[j], src@.len()),
            views(out@) + texts_of_kind_from(cs, kind@, src@, i as int) == texts_of_kind_from(cs, kind@, src@, 0),
        decreases cs.len() - i,
    {
        let c = &n.children[i];
        proof {
            assert(wf(cs[i as int], src@.len()));
        }
        let t = node_text_or(src, c, "");
        let ghost before = views(out@);
        if str_eq(c.kind.as_str(), kind) && t.len() > 0 {
            out.push(t);
            proof {
                assert(views(out@) =~= before + seq![t@]);
            }
        }
        proof {
            assert(views(out@) + texts_of_kind_from(cs, kind@, src@, i + 1) =~= before + texts_of_kind_from(cs, kind@, src@, i as int));
        }
        i = i + 1;
    }
    proof {
        assert(texts_of_kind_from(cs, kind@, src@, i as int) =~= seq![]);
        assert(views(out@) =~= views(out@) + texts_of_kind_from(cs, kind@, src@, i as int));
    }
    out
}

/// Whether some child of `n` has kind `kind`.
pub fn has_child_of_kind(n: &SyntaxNode, kind: &str) -> (r: bool)
    ensures
        r == (first_child_of_kind(*n, kind@) is Some),
{
    match first_child_of_kind_exec(n, kind) {
        Some(_) => true,
        None => false,
    }
}

} // verus!
