//! Blast radius: the symbols that reach a target through chains of calls.
//!
//! The callers of the target are at depth 1, their callers at depth 2, and
//! so on, each symbol at the depth of its shortest chain; only symbols
//! whose metadata is known are reported or followed. Ranking by PageRank
//! happens afterwards, on the scores stored with the symbols.
use crate::ranking::{is_sort_perm, score_key, score_key_exec, sort_order};
use crate::resolver::pair_views;
use crate::query::candidates::{matching_symbols, resolve_symbol_candidates, symbol_views};
use crate::text::{
    before_first, before_first_chars, contains, contains_chars, lowercase, push_str, str_eq, string_from_chars, to_chars,
    to_lowercase,
};
use crate::types::query::{SymbolInfo, SymbolView};
use vstd::prelude::*;

verus! {

/// Options controlling the traversal and the output truncation.
#[derive(Debug, Clone)]
pub struct ImpactOptions {
    /// Maximum depth (1 = direct callers only). `None` = unlimited.
    pub max_depth: Option<usize>,
    /// Maximum number of impacted symbols returned after ranking. `None` =
    /// unlimited.
    pub top: Option<usize>,
}

impl Default for ImpactOptions {
    fn default() -> (r: Self)
        ensures
            r.max_depth is None,
            r.top == Some(50usize),
    {
        ImpactOptions { max_depth: None, top: Some(50) }
    }
}

/// What an impact result shows of a symbol.
#[derive(Debug, Clone)]
pub struct SymbolRow {
    pub id: String,
    pub name: String,
    pub kind: String,
    pub start_line: usize,
    /// The bits of the symbol's PageRank score (an IEEE double), if it has
    /// one.
    pub pagerank_bits: Option<u64>,
}

/// A symbol affected by a change of the target, at the depth of its
/// shortest chain of calls to it.
#[derive(Debug, Clone)]
pub struct ImpactRow {
    /// 1-based position in the ranked output; 0 before ranking.
    pub rank: usize,
    pub id: String,
    pub name: String,
    pub kind: String,
    /// The file the symbol lives in: its id before the first `::`.
    pub file: String,
    pub start_line: usize,
    /// Length of the shortest chain of calls to the target.
    pub depth: usize,
    /// The bits of the symbol's PageRank score, if it has one.
    pub pagerank_bits: Option<u64>,
}

/// The ids of the symbols with metadata.
pub open spec fn meta_ids(rows: Seq<SymbolRow>) -> Seq<Seq<char>> {
    rows.map_values(|r: SymbolRow| r.id@)
}

/// The position of the first metadata row, from `k` on, with id `u`.
pub open spec fn meta_index_from(rows: Seq<SymbolRow>, u: Seq<char>, k: int) -> Option<int>
    decreases rows.len() - k,
{
    if k < 0 || k >= rows.len() {
        None
    } else if rows[k].id@ == u {
        Some(k)
    } else {
        meta_index_from(rows, u, k + 1)
    }
}

/// The symbols first reached at step `k` from `t`, going from a symbol to
/// its callers: `t` itself at step 0; at step `k + 1`, every symbol with
/// metadata, not reached before, that calls a symbol reached at step `k`.
pub open spec fn level(calls: Seq<(Seq<char>, Seq<char>)>, rows: Seq<SymbolRow>, t: Seq<char>, k: nat) -> Set<Seq<char>>
    decreases k, 0nat,
{
    if k == 0 {
        set![t]
    } else {
        Set::new(
            |u: Seq<char>|
                meta_ids(rows).contains(u) && !reached(calls, rows, t, (k - 1) as nat).contains(u) && exists|v: Seq<char>|
                    level(calls, rows, t, (k - 1) as nat).contains(v) && calls.contains((u, v)),
        )
    }
}

/// The symbols reached within `k` steps.
pub open spec fn reached(calls: Seq<(Seq<char>, Seq<char>)>, rows: Seq<SymbolRow>, t: Seq<char>, k: nat) -> Set<Seq<char>>
    decreases k, 1nat,
{
    if k == 0 {
        set![t]
    } else {
        reached(calls, rows, t, (k - 1) as nat).union(level(calls, rows, t, k))
    }
}

/// Depth `k` is within the cap.
pub open spec fn within_cap(max_depth: Option<usize>, k: int) -> bool {
    match max_depth {
        Some(c) => k <= c,
        None => true,
    }
}

/// A hit carries the metadata of its symbol (the first row with its id)
/// and the file of its id, and is not ranked yet.
pub open spec fn hit_matches_meta(h: ImpactRow, rows: Seq<SymbolRow>) -> bool {
    match meta_index_from(rows, h.id@, 0) {
        Some(i) => {
            &&& h.name@ == rows[i].name@
            &&& h.kind@ == rows[i].kind@
            &&& h.start_line == rows[i].start_line
            &&& h.pagerank_bits == rows[i].pagerank_bits
            &&& h.file@ == before_first(h.id@, "::"@)
            &&& h.rank == 0
        },
        None => false,
    }
}

/// The views of a list of ids.
pub open spec fn strs(v: Seq<String>) -> Seq<Seq<char>> {
    v.map_values(|s: String| s@)
}

/// What the hits found up to depth `d` satisfy: each is a symbol first
/// reached at its depth (between 1 and `d`) and carries its metadata;
/// every symbol reached at a depth from 1 to `d` is among them; no symbol
/// is listed twice; depths never decrease along the list.
pub open spec fn hits_upto(hits: Seq<ImpactRow>, calls: Seq<(Seq<char>, Seq<char>)>, rows: Seq<SymbolRow>, t: Seq<char>, d: nat) -> bool {
    &&& forall|i: int|
        #![trigger hits[i]]
        0 <= i < hits.len() ==> 1 <= hits[i].depth <= d && level(calls, rows, t, hits[i].depth as nat).contains(hits[i].id@)
            && hit_matches_meta(hits[i], rows)
    &&& forall|k: nat, u: Seq<char>|
        #![trigger level(calls, rows, t, k).contains(u)]
        1 <= k <= d && level(calls, rows, t, k).contains(u) ==> exists|i: int| 0 <= i < hits.len() && hits[i].id@ == u
    &&& forall|i: int, j: int| 0 <= i < j < hits.len() ==> hits[i].id@ != hits[j].id@ && hits[i].depth <= hits[j].depth
}

// ───────────────────────── facts about the levels ─────────────────────────

proof fn lemma_level_in_reached(calls: Seq<(Seq<char>, Seq<char>)>, rows: Seq<SymbolRow>, t: Seq<char>, k: nat, d: nat)
    requires
        k <= d,
    ensures
        level(calls, rows, t, k).subset_of(reached(calls, rows, t, d)),
    decreases d,
{
    if d > k {
        lemma_level_in_reached(calls, rows, t, k, (d - 1) as nat);
    }
}

proof fn lemma_reached_grows(calls: Seq<(Seq<char>, Seq<char>)>, rows: Seq<SymbolRow>, t: Seq<char>, a: nat, b: nat)
    requires
        a <= b,
    ensures
        reached(calls, rows, t, a).subset_of(reached(calls, rows, t, b)),
    decreases b,
{
    if b > a {
        lemma_reached_grows(calls, rows, t, a, (b - 1) as nat);
    }
}

proof fn lemma_reached_has_target(calls: Seq<(Seq<char>, Seq<char>)>, rows: Seq<SymbolRow>, t: Seq<char>, d: nat)
    ensures
        reached(calls, rows, t, d).contains(t),
{
    lemma_reached_grows(calls, rows, t, 0, d);
}

/// The levels are disjoint.
proof fn lemma_levels_disjoint(calls: Seq<(Seq<char>, Seq<char>)>, rows: Seq<SymbolRow>, t: Seq<char>, a: nat, b: nat, u: Seq<char>)
    requires
        a < b,
        level(calls, rows, t, a).contains(u),
    ensures
        !level(calls, rows, t, b).contains(u),
{
    lemma_level_in_reached(calls, rows, t, a, (b - 1) as nat);
}

/// Once a level is empty, so is every later one.
proof fn lemma_empty_level_stays(calls: Seq<(Seq<char>, Seq<char>)>, rows: Seq<SymbolRow>, t: Seq<char>, d: nat, k: nat)
    requires
        d <= k,
        forall|x: Seq<char>| !level(calls, rows, t, d).contains(x),
    ensures
        forall|x: Seq<char>| !level(calls, rows, t, k).contains(x),
    decreases k,
{
    if k > d {
        lemma_empty_level_stays(calls, rows, t, d, (k - 1) as nat);
        assert forall|x: Seq<char>| !level(calls, rows, t, k).contains(x) by {
            if level(calls, rows, t, k).contains(x) {
                let v = choose|v: Seq<char>| level(calls, rows, t, (k - 1) as nat).contains(v) && calls.contains((x, v));
            }
        }
    }
}

// ───────────────────────── the traversal ─────────────────────────

/// A list of symbols without repeats, each with metadata, is no longer
/// than the metadata.
proof fn lemma_hits_bounded(hits: Seq<ImpactRow>, rows: Seq<SymbolRow>)
    requires
        forall|i: int, j: int| 0 <= i < j < hits.len() ==> hits[i].id@ != hits[j].id@,
        forall|i: int| 0 <= i < hits.len() ==> meta_ids(rows).contains(#[trigger] hits[i].id@),
    ensures
        hits.len() <= rows.len(),
{
    let ids = hits.map_values(|h: ImpactRow| h.id@);
    assert(ids.no_duplicates()) by {
        assert forall|i: int, j: int| 0 <= i < ids.len() && 0 <= j < ids.len() && i != j implies ids[i] != ids[j] by {
            if i < j {
                assert(hits[i].id@ != hits[j].id@);
            } else {
                assert(hits[j].id@ != hits[i].id@);
            }
        }
    }
    ids.unique_seq_to_set();
    let mids = meta_ids(rows);
    assert(ids.to_set().subset_of(mids.to_set())) by {
        assert forall|x: Seq<char>| ids.to_set().contains(x) implies mids.to_set().contains(x) by {
            let i = choose|i: int| 0 <= i < ids.len() && ids[i] == x;
            assert(meta_ids(rows).contains(hits[i].id@));
        }
    }
    vstd::set_lib::lemma_len_subset(ids.to_set(), mids.to_set());
    mids.lemma_cardinality_of_set();
}

proof fn lemma_meta_index(rows: Seq<SymbolRow>, u: Seq<char>, k: int)
    requires
        0 <= k,
    ensures
        meta_index_from(rows, u, k) matches Some(i) ==> k <= i < rows.len() && rows[i].id@ == u,
        meta_index_from(rows, u, k) is None ==> forall|j: int| k <= j < rows.len() ==> rows[j].id@ != u,
    decreases rows.len() - k,
{
    if k < rows.len() {
        lemma_meta_index(rows, u, k + 1);
    }
}

proof fn lemma_meta_index_iff(rows: Seq<SymbolRow>, u: Seq<char>)
    ensures
        meta_index_from(rows, u, 0) is Some <==> meta_ids(rows).contains(u),
{
    lemma_meta_index(rows, u, 0);
    if meta_index_from(rows, u, 0) is Some {
        let i = meta_index_from(rows, u, 0)->0;
        assert(meta_ids(rows)[i] == u);
    } else if meta_ids(rows).contains(u) {
        let j = choose|j: int| 0 <= j < meta_ids(rows).len() && meta_ids(rows)[j] == u;
        assert(rows[j].id@ == u);
    }
}

fn find_meta(rows: &[SymbolRow], u: &str) -> (r: Option<usize>)
    ensures
        r matches Some(i) ==> meta_index_from(rows@, u@, 0) == Some(i as int),
        r is None ==> meta_index_from(rows@, u@, 0) is None,
{
    let mut k: usize = 0;
    while k < rows.len()
        invariant
            k <= rows@.len(),
            meta_index_from(rows@, u@, 0) == meta_index_from(rows@, u@, k as int),
        decreases rows.len() - k,
    {
        if str_eq(rows[k].id.as_str(), u) {
            return Some(k);
        }
        k = k + 1;
    }
    None
}

fn contains_str(v: &Vec<String>, x: &str) -> (r: bool)
    ensures
        r == strs(v@).contains(x@),
{
    let mut k: usize = 0;
    while k < v.len()
        invariant
            k <= v@.len(),
            forall|j: int| 0 <= j < k ==> strs(v@)[j] != x@,
        decreases v.len() - k,
    {
        if str_eq(v[k].as_str(), x) {
            proof {
                assert(strs(v@)[k as int] == x@);
            }
            return true;
        }
        k = k + 1;
    }
    false
}

fn make_hit(m: &SymbolRow, depth: usize) -> (h: ImpactRow)
    ensures
        h.id@ == m.id@,
        h.name@ == m.name@,
        h.kind@ == m.kind@,
        h.start_line == m.start_line,
        h.pagerank_bits == m.pagerank_bits,
        h.rank == 0,
        h.depth == depth,
        h.file@ == before_first(m.id@, "::"@),
{
    let cs = to_chars(m.id.as_str());
    let sep = to_chars("::");
    proof {
        reveal_strlit("::");
        assert(sep@.len() > 0);
    }
    let file = string_from_chars(before_first_chars(cs.as_slice(), sep.as_slice()).as_slice());
    ImpactRow {
        rank: 0,
        id: m.id.clone(),
        name: m.name.clone(),
        kind: m.kind.clone(),
        file,
        start_line: m.start_line,
        depth,
        pagerank_bits: m.pagerank_bits,
    }
}

/// Records `u` as a caller met during the scan: unless it was seen
/// before, it becomes seen, and when it has metadata it is also recorded
/// as a hit at `depth` and as a member of the next frontier.
fn record_caller(
    u: &String,
    rows: &[SymbolRow],
    seen: &mut Vec<String>,
    out: &mut Vec<ImpactRow>,
    next: &mut Vec<String>,
    depth: usize,
)
    ensures
        strs(old(seen)@).contains(u@) ==> final(seen)@ == old(seen)@ && final(out)@ == old(out)@ && final(next)@
            == old(next)@,
        !strs(old(seen)@).contains(u@) ==> strs(final(seen)@) == strs(old(seen)@).push(u@),
        !strs(old(seen)@).contains(u@) && !meta_ids(rows@).contains(u@) ==> final(out)@ == old(out)@ && final(next)@
            == old(next)@,
        !strs(old(seen)@).contains(u@) && meta_ids(rows@).contains(u@) ==> {
            &&& strs(final(next)@) == strs(old(next)@).push(u@)
            &&& final(out)@.len() == old(out)@.len() + 1
            &&& final(out)@.take(old(out)@.len() as int) == old(out)@
            &&& final(out)@.last().id@ == u@
            &&& final(out)@.last().depth == depth
            &&& hit_matches_meta(final(out)@.last(), rows@)
        },
{
    if contains_str(seen, u.as_str()) {
        return;
    }
    let ghost seen0 = strs(seen@);
    seen.push(u.clone());
    proof {
        assert(strs(seen@) =~= seen0.push(u@));
        lemma_meta_index(rows@, u@, 0);
        lemma_meta_index_iff(rows@, u@);
    }
    match find_meta(rows, u.as_str()) {
        Some(ix) => {
            let h = make_hit(&rows[ix], depth);
            let ghost out0 = out@;
            let ghost next0 = strs(next@);
            out.push(h);
            next.push(u.clone());
            proof {
                assert(strs(next@) =~= next0.push(u@));
                assert(out@.take(out0.len() as int) =~= out0);
            }
        },
        None => {},
    }
}

/// The state of the scan for the next level after the calls of the
/// frontier symbols before `i`, and the first `e` calls of symbol `i`,
/// were looked at.
pub open spec fn scan_ok(
    c: Seq<(Seq<char>, Seq<char>)>,
    r: Seq<SymbolRow>,
    t: Seq<char>,
    d: nat,
    f: Seq<Seq<char>>,
    i: int,
    e: int,
    seen: Seq<Seq<char>>,
    next: Seq<Seq<char>>,
    out: Seq<ImpactRow>,
    out0: Seq<ImpactRow>,
) -> bool {
    let base = out0.len() as int;
    &&& forall|x: Seq<char>| f.contains(x) <==> level(c, r, t, d).contains(x)
    &&& out.len() == base + next.len()
    &&& out.take(base) == out0
    &&& forall|j: int|
        0 <= j < next.len() ==> #[trigger] out[base + j].id@ == next[j] && out[base + j].depth == d + 1
            && hit_matches_meta(out[base + j], r)
    &&& forall|x: Seq<char>| next.contains(x) ==> level(c, r, t, d + 1).contains(x)
    &&& forall|x: Seq<char>|
        (meta_ids(r).contains(x) || x == t) ==> (seen.contains(x) <==> reached(c, r, t, d).contains(x) || next.contains(x))
    &&& forall|j1: int, j2: int| 0 <= j1 < j2 < next.len() ==> next[j1] != next[j2]
    &&& forall|i2: int, m: int|
        #![trigger f[i2], c[m]]
        0 <= i2 < f.len() && 0 <= m < c.len() && (i2 < i || (i2 == i && m < e)) && c[m].1 == f[i2] && meta_ids(r).contains(
            c[m].0,
        ) && !reached(c, r, t, d).contains(c[m].0) ==> next.contains(c[m].0)
}

/// Looking at call `e` of frontier symbol `i` keeps the scan's state.
#[verifier::rlimit(40)]
#[verifier::spinoff_prover]
proof fn lemma_scan_step(
    c: Seq<(Seq<char>, Seq<char>)>,
    r: Seq<SymbolRow>,
    t: Seq<char>,
    d: nat,
    f: Seq<Seq<char>>,
    i: int,
    e: int,
    seen: Seq<Seq<char>>,
    next: Seq<Seq<char>>,
    out: Seq<ImpactRow>,
    out0: Seq<ImpactRow>,
    seen2: Seq<Seq<char>>,
    next2: Seq<Seq<char>>,
    out2: Seq<ImpactRow>,
)
    requires
        scan_ok(c, r, t, d, f, i, e, seen, next, out, out0),
        0 <= i < f.len(),
        0 <= e < c.len(),
        c[e].1 != f[i] || seen.contains(c[e].0) ==> seen2 == seen && next2 == next && out2 == out,
        c[e].1 == f[i] && !seen.contains(c[e].0) ==> seen2 == seen.push(c[e].0),
        c[e].1 == f[i] && !seen.contains(c[e].0) && !meta_ids(r).contains(c[e].0) ==> next2 == next && out2 == out,
        c[e].1 == f[i] && !seen.contains(c[e].0) && meta_ids(r).contains(c[e].0) ==> {
            &&& next2 == next.push(c[e].0)
            &&& out2.len() == out.len() + 1
            &&& out2.take(out.len() as int) == out
            &&& out2.last().id@ == c[e].0
            &&& out2.last().depth == d + 1
            &&& hit_matches_meta(out2.last(), r)
        },
    ensures
        scan_ok(c, r, t, d, f, i, e + 1, seen2, next2, out2, out0),
{
    let u = c[e].0;
    let base = out0.len() as int;
    lemma_reached_has_target(c, r, t, d);
    if c[e].1 == f[i] && !seen.contains(u) {
        if meta_ids(r).contains(u) {
            assert(f.contains(f[i]));
            assert(c.contains((u, f[i])));
            assert(!reached(c, r, t, d).contains(u));
            assert(level(c, r, t, d + 1).contains(u));
            assert(out2.take(base) =~= out.take(base)) by {
                assert forall|k: int| 0 <= k < base implies out2.take(base)[k] == out.take(base)[k] by {
                    assert(out2[k] == out2.take(out.len() as int)[k]);
                }
            }
            assert forall|j: int| 0 <= j < next2.len() implies #[trigger] out2[base + j].id@ == next2[j]
                && out2[base + j].depth == d + 1 && hit_matches_meta(out2[base + j], r) by {
                if j < next.len() {
                    assert(out2[base + j] == out2.take(out.len() as int)[base + j]);
                }
            }
            assert forall|x: Seq<char>| next2.contains(x) implies level(c, r, t, d + 1).contains(x) by {
                if x != u {
                    let k = choose|k: int| 0 <= k < next2.len() && next2[k] == x;
                    assert(next[k] == x);
                    assert(next.contains(x));
                }
            }
            assert forall|x: Seq<char>| (meta_ids(r).contains(x) || x == t) implies (seen2.contains(x) <==> reached(
                c,
                r,
                t,
                d,
            ).contains(x) || next2.contains(x)) by {
                if x != u {
                    if seen2.contains(x) {
                        let k = choose|k: int| 0 <= k < seen2.len() && seen2[k] == x;
                        assert(seen[k] == x);
                    }
                    if next2.contains(x) {
                        let k = choose|k: int| 0 <= k < next2.len() && next2[k] == x;
                        assert(next[k] == x);
                    }
                    if seen.contains(x) {
                        let k = choose|k: int| 0 <= k < seen.len() && seen[k] == x;
                        assert(seen2[k] == x);
                    }
                    if next.contains(x) {
                        let k = choose|k: int| 0 <= k < next.len() && next[k] == x;
                        assert(next2[k] == x);
                    }
                } else {
                    assert(seen2[seen.len() as int] == u);
                    assert(next2[next.len() as int] == u);
                }
            }
            assert forall|j1: int, j2: int| 0 <= j1 < j2 < next2.len() implies next2[j1] != next2[j2] by {
                if j2 == next.len() {
                    assert(next[j1] == next2[j1]);
                    assert(!next.contains(u));
                }
            }
            assert forall|i2: int, m: int|
                #![trigger f[i2], c[m]]
                0 <= i2 < f.len() && 0 <= m < c.len() && (i2 < i || (i2 == i && m < e + 1)) && c[m].1 == f[i2]
                    && meta_ids(r).contains(c[m].0) && !reached(c, r, t, d).contains(c[m].0) implies next2.contains(
                c[m].0,
            ) by {
                if m == e && i2 == i {
                    assert(next2[next.len() as int] == u);
                } else {
                    let k = choose|k: int| 0 <= k < next.len() && next[k] == c[m].0;
                    assert(next2[k] == c[m].0);
                }
            }
        } else {
            assert forall|x: Seq<char>| (meta_ids(r).contains(x) || x == t) implies (seen2.contains(x) <==> reached(
                c,
                r,
                t,
                d,
            ).contains(x) || next2.contains(x)) by {
                if x != u {
                    if seen2.contains(x) {
                        let k = choose|k: int| 0 <= k < seen2.len() && seen2[k] == x;
                        assert(seen[k] == x);
                    }
                    if seen.contains(x) {
                        let k = choose|k: int| 0 <= k < seen.len() && seen[k] == x;
                        assert(seen2[k] == x);
                    }
                } else {
                    assert(seen2[seen.len() as int] == u);
                }
            }
            assert forall|i2: int, m: int|
                #![trigger f[i2], c[m]]
                0 <= i2 < f.len() && 0 <= m < c.len() && (i2 < i || (i2 == i && m < e + 1)) && c[m].1 == f[i2]
                    && meta_ids(r).contains(c[m].0) && !reached(c, r, t, d).contains(c[m].0) implies next2.contains(
                c[m].0,
            ) by {}
        }
    } else {
        assert forall|i2: int, m: int|
            #![trigger f[i2], c[m]]
            0 <= i2 < f.len() && 0 <= m < c.len() && (i2 < i || (i2 == i && m < e + 1)) && c[m].1 == f[i2]
                && meta_ids(r).contains(c[m].0) && !reached(c, r, t, d).contains(c[m].0) implies next2.contains(c[m].0) by {
            if m == e && i2 == i {
                // `u` was seen before: it is either reached already or in the next frontier
                assert(seen.contains(u));
            }
        }
    }
}

/// Finds the symbols of the next level: scanning the frontier in order,
/// and for each of its symbols the calls in order, every caller not seen
/// before is marked seen and, when it has metadata, recorded at
/// `depth + 1`.
#[verifier::rlimit(40)]
#[verifier::spinoff_prover]
fn expand_level(
    target: &str,
    calls: &[(String, String)],
    rows: &[SymbolRow],
    frontier: &Vec<String>,
    seen: &mut Vec<String>,
    out: &mut Vec<ImpactRow>,
    depth: usize,
) -> (next: Vec<String>)
    requires
        depth < usize::MAX,
        forall|x: Seq<char>| strs(frontier@).contains(x) <==> level(pair_views(calls@), rows@, target@, depth as nat).contains(x),
        forall|x: Seq<char>| (meta_ids(rows@).contains(x) || x == target@) ==> (strs(old(seen)@).contains(x)
            <==> reached(pair_views(calls@), rows@, target@, depth as nat).contains(x)),
        hits_upto(old(out)@, pair_views(calls@), rows@, target@, depth as nat),
    ensures
        forall|x: Seq<char>| strs(next@).contains(x) <==> level(pair_views(calls@), rows@, target@, (depth + 1) as nat).contains(x),
        forall|x: Seq<char>| (meta_ids(rows@).contains(x) || x == target@) ==> (strs(final(seen)@).contains(x)
            <==> reached(pair_views(calls@), rows@, target@, (depth + 1) as nat).contains(x)),
        hits_upto(final(out)@, pair_views(calls@), rows@, target@, (depth + 1) as nat),
        final(out)@.len() == old(out)@.len() + next@.len(),
{
    let ghost c = pair_views(calls@);
    let ghost r = rows@;
    let ghost t = target@;
    let ghost d = depth as nat;
    let ghost f = strs(frontier@);
    let ghost out0 = out@;
    let mut next: Vec<String> = Vec::new();
    proof {
        assert(out@.take(out0.len() as int) =~= out0);
        assert forall|x: Seq<char>| (meta_ids(r).contains(x) || x == t) implies (strs(seen@).contains(x) <==> reached(
            c,
            r,
            t,
            d,
        ).contains(x) || strs(next@).contains(x)) by {}
    }
    let mut i: usize = 0;
    while i < frontier.len()
        invariant
            i <= frontier@.len(),
            c == pair_views(calls@),
            r == rows@,
            t == target@,
            d == depth as nat,
            depth < usize::MAX,
            f == strs(frontier@),
            hits_upto(out0, c, r, t, d),
            scan_ok(c, r, t, d, f, i as int, 0, strs(seen@), strs(next@), out@, out0),
        decreases frontier.len() - i,
    {
        let mut e: usize = 0;
        while e < calls.len()
            invariant
                i < frontier@.len(),
                e <= calls@.len(),
                c == pair_views(calls@),
                r == rows@,
                t == target@,
                d == depth as nat,
                depth < usize::MAX,
                f == strs(frontier@),
                scan_ok(c, r, t, d, f, i as int, e as int, strs(seen@), strs(next@), out@, out0),
            decreases calls.len() - e,
        {
            let ghost seen1 = strs(seen@);
            let ghost next1 = strs(next@);
            let ghost out1 = out@;
            proof {
                assert(c[e as int] == (calls@[e as int].0@, calls@[e as int].1@));
                assert(f[i as int] == frontier@[i as int]@);
            }
            if str_eq(calls[e].1.as_str(), frontier[i].as_str()) {
                record_caller(&calls[e].0, rows, seen, out, &mut next, depth + 1);
            }
            proof {
                lemma_scan_step(c, r, t, d, f, i as int, e as int, seen1, next1, out1, out0, strs(seen@), strs(next@), out@);
            }
            e = e + 1;
        }
        proof {
            assert forall|i2: int, m: int|
                #![trigger f[i2], c[m]]
                0 <= i2 < f.len() && 0 <= m < c.len() && (i2 < i + 1 || (i2 == i + 1 && m < 0)) && c[m].1 == f[i2]
                    && meta_ids(r).contains(c[m].0) && !reached(c, r, t, d).contains(c[m].0) implies strs(next@).contains(
                c[m].0,
            ) by {
                assert(i2 < i || (i2 == i && m < e));
            }
        }
        i = i + 1;
    }
    proof {
        let base = out0.len() as int;
        let nx = strs(next@);
        assert forall|x: Seq<char>| level(c, r, t, d + 1).contains(x) implies nx.contains(x) by {
            let v = choose|v: Seq<char>| level(c, r, t, d).contains(v) && c.contains((x, v));
            assert(f.contains(v));
            let i2 = choose|i2: int| 0 <= i2 < f.len() && f[i2] == v;
            let m = choose|m: int| 0 <= m < c.len() && c[m] == (x, v);
            assert(c[m].1 == f[i2]);
        }
        assert(reached(c, r, t, d + 1) == reached(c, r, t, d).union(level(c, r, t, d + 1)));
        let hits = out@;
        assert forall|k: nat, u: Seq<char>|
            #![trigger level(c, r, t, k).contains(u)]
            1 <= k <= d + 1 && level(c, r, t, k).contains(u) implies exists|ii: int| 0 <= ii < hits.len() && hits[ii].id@ == u by {
            if k <= d {
                let ii = choose|ii: int| 0 <= ii < out0.len() && out0[ii].id@ == u;
                assert(hits[ii] == hits.take(base)[ii]);
            } else {
                assert(nx.contains(u));
                let j = choose|j: int| 0 <= j < nx.len() && nx[j] == u;
                assert(hits[base + j].id@ == nx[j]);
            }
        }
        assert forall|ii: int| #![trigger hits[ii]] 0 <= ii < hits.len() implies 1 <= hits[ii].depth <= d + 1 && level(
            c,
            r,
            t,
            hits[ii].depth as nat,
        ).contains(hits[ii].id@) && hit_matches_meta(hits[ii], r) by {
            if ii < base {
                assert(hits[ii] == hits.take(base)[ii]);
            } else {
                let j = ii - base;
                assert(hits[base + j].id@ == nx[j]);
                assert(nx.contains(nx[j]));
            }
        }
        assert forall|i1: int, i2: int| 0 <= i1 < i2 < hits.len() implies hits[i1].id@ != hits[i2].id@ && hits[i1].depth
            <= hits[i2].depth by {
            if i2 < base {
                assert(hits[i1] == hits.take(base)[i1]);
                assert(hits[i2] == hits.take(base)[i2]);
            } else if i1 < base {
                assert(hits[i1] == hits.take(base)[i1]);
                let j = i2 - base;
                assert(hits[base + j].id@ == nx[j]);
                assert(nx.contains(nx[j]));
                assert(level(c, r, t, d + 1).contains(hits[i2].id@));
                lemma_level_in_reached(c, r, t, out0[i1].depth as nat, d);
                assert(reached(c, r, t, d).contains(hits[i1].id@));
            } else {
                let j1 = i1 - base;
                let j2 = i2 - base;
                assert(hits[base + j1].id@ == nx[j1]);
                assert(hits[base + j2].id@ == nx[j2]);
            }
        }
    }
    next
}

/// One more level fits under the cap.
fn below_cap(max_depth: Option<usize>, depth: usize) -> (b: bool)
    ensures
        b == within_cap(max_depth, depth + 1),
{
    match max_depth {
        Some(cap) => depth < cap,
        None => true,
    }
}

/// What an impact result is: each hit is a symbol first reached at its
/// depth, which is at least 1 and within the cap, and carries its metadata;
/// every symbol first reached at a depth from 1 within the cap is among the
/// hits; no symbol is listed twice; depths never decrease along the list.
pub open spec fn impact_ok(
    hits: Seq<ImpactRow>,
    calls: Seq<(Seq<char>, Seq<char>)>,
    rows: Seq<SymbolRow>,
    t: Seq<char>,
    max_depth: Option<usize>,
) -> bool {
    &&& forall|i: int|
        #![trigger hits[i]]
        0 <= i < hits.len() ==> 1 <= hits[i].depth && within_cap(max_depth, hits[i].depth as int) && level(
            calls,
            rows,
            t,
            hits[i].depth as nat,
        ).contains(hits[i].id@) && hit_matches_meta(hits[i], rows)
    &&& forall|k: nat, u: Seq<char>|
        #![trigger level(calls, rows, t, k).contains(u)]
        1 <= k && within_cap(max_depth, k as int) && level(calls, rows, t, k).contains(u) ==> exists|i: int|
            0 <= i < hits.len() && hits[i].id@ == u
    &&& forall|i: int, j: int| 0 <= i < j < hits.len() ==> hits[i].id@ != hits[j].id@ && hits[i].depth <= hits[j].depth
}

/// The symbols impacted by a change of `target`: those that reach it
/// through a chain of calls (`calls` holds `(caller, callee)` pairs),
/// level by level, each at the depth of its shortest chain, up to
/// `opts.max_depth`. Only symbols with metadata in `rows` are reported or
/// followed; the target itself is never reported. The result is not
/// ranked or truncated.
pub fn compute_impact(target: &str, calls: &[(String, String)], rows: &[SymbolRow], opts: &ImpactOptions) -> (out: Vec<
    ImpactRow,
>)
    requires
        rows@.len() < usize::MAX,
    ensures
        impact_ok(out@, pair_views(calls@), rows@, target@, opts.max_depth),
{
    let ghost c = pair_views(calls@);
    let ghost r = rows@;
    let ghost t = target@;
    let mut seen: Vec<String> = Vec::new();
    seen.push(target.to_string());
    let mut frontier: Vec<String> = Vec::new();
    frontier.push(target.to_string());
    let mut out: Vec<ImpactRow> = Vec::new();
    let mut depth: usize = 0;
    proof {
        assert(strs(seen@) =~= seq![t]);
        assert(strs(frontier@) =~= seq![t]);
        assert forall|x: Seq<char>| strs(frontier@).contains(x) <==> level(c, r, t, 0).contains(x) by {
            if x == t {
                assert(strs(frontier@)[0] == t);
            }
        }
        assert forall|x: Seq<char>| (meta_ids(r).contains(x) || x == t) implies (strs(seen@).contains(x) <==> reached(
            c,
            r,
            t,
            0,
        ).contains(x)) by {
            if x == t {
                assert(strs(seen@)[0] == t);
            }
        }
    }
    while frontier.len() > 0 && below_cap(opts.max_depth, depth)
        invariant
            c == pair_views(calls@),
            r == rows@,
            t == target@,
            r.len() < usize::MAX,
            within_cap(opts.max_depth, depth as int),
            frontier@.len() > 0 ==> depth <= out@.len(),
            forall|x: Seq<char>| strs(frontier@).contains(x) <==> level(c, r, t, depth as nat).contains(x),
            forall|x: Seq<char>| (meta_ids(r).contains(x) || x == t) ==> (strs(seen@).contains(x) <==> reached(
                c,
                r,
                t,
                depth as nat,
            ).contains(x)),
            hits_upto(out@, c, r, t, depth as nat),
        decreases 2 * (r.len() - out@.len()) + if frontier@.len() > 0 {
            1int
        } else {
            0int
        },
    {
        proof {
            lemma_hits_within(out@, c, r, t, depth as nat);
        }
        let next = expand_level(target, calls, rows, &frontier, &mut seen, &mut out, depth);
        depth = depth + 1;
        frontier = next;
        proof {
            lemma_hits_within(out@, c, r, t, depth as nat);
        }
    }
    proof {
        let d = depth as nat;
        let hits = out@;
        if frontier@.len() == 0 {
            assert forall|x: Seq<char>| !level(c, r, t, d).contains(x) by {
                if level(c, r, t, d).contains(x) {
                    assert(strs(frontier@).contains(x));
                }
            }
        }
        assert forall|k: nat, u: Seq<char>|
            #![trigger level(c, r, t, k).contains(u)]
            1 <= k && within_cap(opts.max_depth, k as int) && level(c, r, t, k).contains(u) implies exists|i: int|
                0 <= i < hits.len() && hits[i].id@ == u by {
            if k > d {
                if frontier@.len() == 0 {
                    lemma_empty_level_stays(c, r, t, d, k);
                }
            }
        }
        assert forall|i: int| #![trigger hits[i]] 0 <= i < hits.len() implies within_cap(
            opts.max_depth,
            hits[i].depth as int,
        ) by {}
    }
    out
}

/// The hits found up to depth `d` are at most as many as the rows, and
/// their count bounds `d` from above once every level up to `d` is non-empty.
proof fn lemma_hits_within(hits: Seq<ImpactRow>, c: Seq<(Seq<char>, Seq<char>)>, r: Seq<SymbolRow>, t: Seq<char>, d: nat)
    requires
        hits_upto(hits, c, r, t, d),
    ensures
        hits.len() <= r.len(),
{
    assert forall|i: int| 0 <= i < hits.len() implies meta_ids(r).contains(#[trigger] hits[i].id@) by {
        lemma_meta_index_iff(r, hits[i].id@);
    }
    lemma_hits_bounded(hits, r);
}

// ───────────────────────── ranking ─────────────────────────

/// The sort key of a row: rows with a score first, the higher score
/// first; rows without a score last.
pub open spec fn impact_key(bits: Option<u64>) -> (u64, u64) {
    match bits {
        Some(b) => (0u64, (0xffff_ffff_ffff_ffffu64 - score_key(b)) as u64),
        None => (1u64, 0u64),
    }
}

pub open spec fn row_keys(rows: Seq<ImpactRow>) -> Seq<(u64, u64)> {
    rows.map_values(|r: ImpactRow| impact_key(r.pagerank_bits))
}

pub open spec fn row_ids(rows: Seq<ImpactRow>) -> Seq<Seq<char>> {
    rows.map_values(|r: ImpactRow| r.id@)
}

/// How many rows a limit of `top` keeps of `n`.
pub open spec fn top_len(top: Option<usize>, n: nat) -> nat {
    match top {
        Some(t) => if t < n {
            t as nat
        } else {
            n
        },
        None => n,
    }
}

/// Two rows show the same symbol the same way, whatever their rank.
pub open spec fn same_row(a: ImpactRow, b: ImpactRow) -> bool {
    &&& a.id@ == b.id@
    &&& a.name@ == b.name@
    &&& a.kind@ == b.kind@
    &&& a.file@ == b.file@
    &&& a.start_line == b.start_line
    &&& a.depth == b.depth
    &&& a.pagerank_bits == b.pagerank_bits
}

/// `out` is `rows` taken in the order `p`, cut to `top`, each row ranked
/// by its 1-based position.
pub open spec fn ranked_as(out: Seq<ImpactRow>, rows: Seq<ImpactRow>, p: Seq<usize>, top: Option<usize>) -> bool {
    &&& out.len() == top_len(top, rows.len())
    &&& forall|j: int| 0 <= j < out.len() ==> same_row(#[trigger] out[j], rows[p[j] as int]) && out[j].rank == j + 1
}

fn impact_key_exec(bits: Option<u64>) -> (k: (u64, u64))
    ensures
        k == impact_key(bits),
{
    match bits {
        Some(b) => (0, 0xffff_ffff_ffff_ffffu64 - score_key_exec(b)),
        None => (1, 0),
    }
}

pub fn top_len_exec(top: Option<usize>, n: usize) -> (m: usize)
    ensures
        m == top_len(top, n as nat),
{
    match top {
        Some(t) => if t < n {
            t
        } else {
            n
        },
        None => n,
    }
}

/// Orders the rows by PageRank score, highest first, rows without a score
/// last, ties by id; keeps the first `opts.top` and sets each row's rank to
/// its 1-based position.
pub fn sort_and_rank(rows: &mut Vec<ImpactRow>, opts: &ImpactOptions)
    ensures
        exists|p: Seq<usize>|
            #[trigger] is_sort_perm(p, row_keys(old(rows)@), row_ids(old(rows)@)) && ranked_as(
                final(rows)@,
                old(rows)@,
                p,
                opts.top,
            ),
{
    let ghost rv = rows@;
    let mut keys: Vec<(u64, u64)> = Vec::new();
    let mut ids: Vec<String> = Vec::new();
    let mut i: usize = 0;
    while i < rows.len()
        invariant
            rv == rows@,
            i <= rows@.len(),
            keys@.len() == i,
            ids@.len() == i,
            forall|j: int| 0 <= j < i ==> keys@[j] == row_keys(rv)[j],
            forall|j: int| 0 <= j < i ==> #[trigger] ids@[j]@ == row_ids(rv)[j],
        decreases rows.len() - i,
    {
        keys.push(impact_key_exec(rows[i].pagerank_bits));
        ids.push(rows[i].id.clone());
        i = i + 1;
    }
    proof {
        assert(keys@ =~= row_keys(rv));
        assert(ids@.map_values(|s: String| s@) =~= row_ids(rv));
    }
    let p = sort_order(keys.as_slice(), ids.as_slice());
    let m = top_len_exec(opts.top, rows.len());
    let mut out: Vec<ImpactRow> = Vec::new();
    let mut j: usize = 0;
    while j < m
        invariant
            rv == rows@,
            m == top_len(opts.top, rv.len()),
            m <= rv.len(),
            j <= m,
            is_sort_perm(p@, row_keys(rv), row_ids(rv)),
            out@.len() == j,
            forall|k: int| 0 <= k < j ==> same_row(#[trigger] out@[k], rv[p@[k] as int]) && out@[k].rank == k + 1,
        decreases m - j,
    {
        let r = &rows[p[j]];
        out.push(
            ImpactRow {
                rank: j + 1,
                id: r.id.clone(),
                name: r.name.clone(),
                kind: r.kind.clone(),
                file: r.file.clone(),
                start_line: r.start_line,
                depth: r.depth,
                pagerank_bits: r.pagerank_bits,
            },
        );
        j = j + 1;
    }
    *rows = out;
    proof {
        assert(ranked_as(rows@, rv, p@, opts.top));
    }
}

// ───────────────────────── resolving the target ─────────────────────────

/// Why an impact query has nothing to report on.
#[derive(Debug)]
pub enum ImpactError {
    /// The target named no symbol; the ids that come closest, if any.
    NoMatch { target: String, suggestions: Vec<String> },
}

/// The lines that list the suggestions.
pub open spec fn suggestion_lines(s: Seq<Seq<char>>) -> Seq<char>
    decreases s.len(),
{
    if s.len() == 0 {
        Seq::empty()
    } else {
        suggestion_lines(s.drop_last()) + "\n  - "@ + s.last()
    }
}

/// What an unknown target is reported as.
pub open spec fn no_match_message(target: Seq<char>, suggestions: Seq<Seq<char>>) -> Seq<char> {
    "Symbol '"@ + target + "' not found"@ + if suggestions.len() > 0 {
        ". Did you mean:"@ + suggestion_lines(suggestions)
    } else {
        Seq::empty()
    }
}

impl ImpactError {
    /// The error as text.
    pub fn message(&self) -> (m: String)
        ensures
            match self {
                ImpactError::NoMatch { target, suggestions } => m@ == no_match_message(target@, strs(suggestions@)),
            },
    {
        match self {
            ImpactError::NoMatch { target, suggestions } => {
                let mut v: Vec<char> = Vec::new();
                push_str(&mut v, "Symbol '");
                push_str(&mut v, target.as_str());
                push_str(&mut v, "' not found");
                let ghost head = v@;
                if suggestions.len() > 0 {
                    push_str(&mut v, ". Did you mean:");
                    let ghost head2 = v@;
                    let mut i: usize = 0;
                    proof {
                        assert(strs(suggestions@).take(0) =~= Seq::<Seq<char>>::empty());
                        assert(v@ =~= head2 + suggestion_lines(strs(suggestions@).take(0)));
                    }
                    while i < suggestions.len()
                        invariant
                            i <= suggestions@.len(),
                            v@ == head2 + suggestion_lines(strs(suggestions@).take(i as int)),
                        decreases suggestions.len() - i,
                    {
                        push_str(&mut v, "\n  - ");
                        push_str(&mut v, suggestions[i].as_str());
                        proof {
                            let pre = strs(suggestions@).take(i + 1);
                            assert(pre.drop_last() =~= strs(suggestions@).take(i as int));
                            assert(pre.last() == suggestions@[i as int]@);
                        }
                        i = i + 1;
                    }
                    proof {
                        assert(strs(suggestions@).take(suggestions@.len() as int) =~= strs(suggestions@));
                    }
                    string_from_chars(v.as_slice())
                } else {
                    proof {
                        assert(v@ =~= head + Seq::<char>::empty());
                    }
                    string_from_chars(v.as_slice())
                }
            },
        }
    }
}

/// A row is suggested for a target (taken in lower case) when its name or
/// its id, in lower case, holds it.
pub open spec fn suggests(r: SymbolRow, lt: Seq<char>) -> bool {
    contains(lowercase(r.name@), lt) || contains(lowercase(r.id@), lt)
}

/// The ids of the suggested rows among the first `k`, in order.
pub open spec fn suggested_upto(rows: Seq<SymbolRow>, lt: Seq<char>, k: int) -> Seq<Seq<char>>
    decreases k,
{
    if k <= 0 {
        Seq::empty()
    } else {
        let before = suggested_upto(rows, lt, k - 1);
        if suggests(rows[k - 1], lt) {
            before.push(rows[k - 1].id@)
        } else {
            before
        }
    }
}

/// Keys that leave the order to the ids alone.
pub open spec fn zero_keys(n: nat) -> Seq<(u64, u64)> {
    Seq::new(n, |i: int| (0u64, 0u64))
}

/// `out` lists the suggested ids sorted, at most five.
pub open spec fn suggestions_ok(out: Seq<Seq<char>>, target: Seq<char>, rows: Seq<SymbolRow>) -> bool {
    let cands = suggested_upto(rows, lowercase(target), rows.len() as int);
    exists|p: Seq<usize>|
        #[trigger] is_sort_perm(p, zero_keys(cands.len()), cands) && out.len() == top_len(Some(5usize), cands.len())
            && forall|j: int| 0 <= j < out.len() ==> #[trigger] out[j] == cands[p[j] as int]
}

/// The ids offered when a target matches nothing: those of the rows whose
/// name or id holds the target, all in lower case, sorted, at most five.
pub fn suggestions(target: &str, rows: &[SymbolRow]) -> (out: Vec<String>)
    ensures
        suggestions_ok(strs(out@), target@, rows@),
{
    let lt_s = to_lowercase(target);
    let lt = to_chars(lt_s.as_str());
    let mut ids: Vec<String> = Vec::new();
    let mut keys: Vec<(u64, u64)> = Vec::new();
    let mut k: usize = 0;
    while k < rows.len()
        invariant
            k <= rows@.len(),
            lt@ == lowercase(target@),
            keys@.len() == ids@.len(),
            strs(ids@) == suggested_upto(rows@, lt@, k as int),
            forall|j: int| 0 <= j < keys@.len() ==> keys@[j] == (0u64, 0u64),
        decreases rows.len() - k,
    {
        let name_lc = to_lowercase(rows[k].name.as_str());
        let id_lc = to_lowercase(rows[k].id.as_str());
        let nc = to_chars(name_lc.as_str());
        let ic = to_chars(id_lc.as_str());
        if contains_chars(nc.as_slice(), lt.as_slice()) || contains_chars(ic.as_slice(), lt.as_slice()) {
            let ghost before = strs(ids@);
            ids.push(rows[k].id.clone());
            keys.push((0, 0));
            proof {
                assert(strs(ids@) =~= before.push(rows@[k as int].id@));
            }
        }
        k = k + 1;
    }
    let ghost cands = strs(ids@);
    proof {
        assert(keys@ =~= zero_keys(cands.len()));
        assert(ids@.map_values(|s: String| s@) =~= cands);
    }
    let p = sort_order(keys.as_slice(), ids.as_slice());
    let m = top_len_exec(Some(5), ids.len());
    let mut out: Vec<String> = Vec::new();
    let mut j: usize = 0;
    while j < m
        invariant
            cands == strs(ids@),
            m == top_len(Some(5usize), cands.len()),
            m <= cands.len(),
            j <= m,
            is_sort_perm(p@, zero_keys(cands.len()), cands),
            out@.len() == j,
            forall|i: int| 0 <= i < j ==> #[trigger] out@[i]@ == cands[p@[i] as int],
        decreases m - j,
    {
        out.push(ids[p[j]].clone());
        j = j + 1;
    }
    proof {
        assert(is_sort_perm(p@, zero_keys(cands.len()), cands));
        assert forall|i: int| 0 <= i < strs(out@).len() implies #[trigger] strs(out@)[i] == cands[p@[i] as int] by {
            assert(out@[i]@ == cands[p@[i] as int]);
        }
    }
    out
}

/// The rows as the candidate resolver sees them.
pub open spec fn row_pool(rows: Seq<SymbolRow>) -> Seq<SymbolView> {
    rows.map_values(
        |r: SymbolRow|
            SymbolView {
                id: r.id@,
                name: r.name@,
                kind: r.kind@,
                start_line: r.start_line as int,
                end_line: r.start_line as int,
                signature: Seq::empty(),
            },
    )
}

/// Resolves the target of an impact query among the symbol rows: with no
/// rows at all, or no matching symbol, it is unknown (with suggestions in
/// the second case); otherwise the first match is taken, and the number of
/// matches is returned beside its id.
pub fn resolve_impact_target(target: &str, fuzzy: bool, rows: &[SymbolRow]) -> (r: Result<(String, usize), ImpactError>)
    ensures
        rows@.len() == 0 ==> (r matches Err(ImpactError::NoMatch { target: t, suggestions: s }) && t@ == target@ && s@.len()
            == 0),
        rows@.len() > 0 && matching_symbols(row_pool(rows@), target@, fuzzy).len() == 0 ==> (r matches Err(
            ImpactError::NoMatch { target: t, suggestions: s },
        ) && t@ == target@ && suggestions_ok(strs(s@), target@, rows@)),
        rows@.len() > 0 && matching_symbols(row_pool(rows@), target@, fuzzy).len() > 0 ==> (r matches Ok((id, n)) && id@
            == matching_symbols(row_pool(rows@), target@, fuzzy)[0].id && n == matching_symbols(
            row_pool(rows@),
            target@,
            fuzzy,
        ).len()),
{
    if rows.len() == 0 {
        return Err(ImpactError::NoMatch { target: target.to_string(), suggestions: Vec::new() });
    }
    let mut pool: Vec<SymbolInfo> = Vec::new();
    let mut k: usize = 0;
    while k < rows.len()
        invariant
            k <= rows@.len(),
            symbol_views(pool@) == row_pool(rows@).take(k as int),
        decreases rows.len() - k,
    {
        let r = &rows[k];
        let ghost before = symbol_views(pool@);
        let sig = String::new();
        let info = SymbolInfo {
            id: r.id.clone(),
            name: r.name.clone(),
            kind: r.kind.clone(),
            start_line: r.start_line,
            end_line: r.start_line,
            signature: sig,
        };
        proof {
            assert(sig@ =~= Seq::<char>::empty());
            assert(info@ == row_pool(rows@)[k as int]);
        }
        pool.push(info);
        proof {
            assert(symbol_views(pool@) =~= before.push(info@));
            assert(row_pool(rows@).take(k + 1) =~= row_pool(rows@).take(k as int).push(row_pool(rows@)[k as int]));
        }
        k = k + 1;
    }
    proof {
        assert(row_pool(rows@).take(rows@.len() as int) =~= row_pool(rows@));
    }
    let candidates = resolve_symbol_candidates(target, fuzzy, pool.as_slice());
    if candidates.len() == 0 {
        return Err(ImpactError::NoMatch { target: target.to_string(), suggestions: suggestions(target, rows) });
    }
    proof {
        assert(symbol_views(candidates@)[0] == candidates@[0]@);
    }
    Ok((candidates[0].id.clone(), candidates.len()))
}

/// The warning given when the target matched several symbols.
pub open spec fn several_matches_warning(n: nat, target: Seq<char>, id: Seq<char>) -> Seq<char> {
    "Warning: "@ + crate::text::decimal(n) + " matches for '"@ + target + "'; using the first: "@ + id
}

/// The warning given when the target matched several symbols.
pub fn several_matches(n: usize, target: &str, id: &str) -> (w: String)
    ensures
        w@ == several_matches_warning(n as nat, target@, id@),
{
    let mut v: Vec<char> = Vec::new();
    push_str(&mut v, "Warning: ");
    let d = crate::text::decimal_chars(n);
    crate::text::push_all(&mut v, d.as_slice());
    push_str(&mut v, " matches for '");
    push_str(&mut v, target);
    push_str(&mut v, "'; using the first: ");
    push_str(&mut v, id);
    string_from_chars(v.as_slice())
}

// ───────────────────────── laws ─────────────────────────

/// A symbol is never part of its own impact.
pub proof fn lemma_target_not_impacted(
    hits: Seq<ImpactRow>,
    calls: Seq<(Seq<char>, Seq<char>)>,
    rows: Seq<SymbolRow>,
    t: Seq<char>,
    max_depth: Option<usize>,
)
    requires
        impact_ok(hits, calls, rows, t, max_depth),
    ensures
        forall|i: int| 0 <= i < hits.len() ==> #[trigger] hits[i].id@ != t,
{
    assert forall|i: int| 0 <= i < hits.len() implies #[trigger] hits[i].id@ != t by {
        let k = hits[i].depth as nat;
        assert(level(calls, rows, t, 0).contains(t));
        if hits[i].id@ == t {
            lemma_levels_disjoint(calls, rows, t, 0, k, t);
        }
    }
}

/// Raising the depth cap drops no impacted symbol, nor changes its
/// depth.
pub proof fn lemma_raising_cap_keeps_hits(
    low: Seq<ImpactRow>,
    high: Seq<ImpactRow>,
    calls: Seq<(Seq<char>, Seq<char>)>,
    rows: Seq<SymbolRow>,
    t: Seq<char>,
    a: usize,
    b: Option<usize>,
)
    requires
        impact_ok(low, calls, rows, t, Some(a)),
        impact_ok(high, calls, rows, t, b),
        b matches Some(bb) ==> a <= bb,
    ensures
        forall|i: int|
            0 <= i < low.len() ==> exists|j: int|
                0 <= j < high.len() && high[j].id@ == #[trigger] low[i].id@ && high[j].depth == low[i].depth,
{
    assert forall|i: int| 0 <= i < low.len() implies exists|j: int|
        0 <= j < high.len() && high[j].id@ == #[trigger] low[i].id@ && high[j].depth == low[i].depth by {
        let k = low[i].depth as nat;
        let u = low[i].id@;
        assert(level(calls, rows, t, k).contains(u));
        let j = choose|j: int| 0 <= j < high.len() && high[j].id@ == u;
        let kj = high[j].depth as nat;
        assert(level(calls, rows, t, kj).contains(u));
        if kj < k {
            lemma_levels_disjoint(calls, rows, t, kj, k, u);
        } else if k < kj {
            lemma_levels_disjoint(calls, rows, t, k, kj, u);
        }
    }
}

/// The depth-1 hits are exactly the symbols with metadata, other than the
/// target, that call the target.
pub proof fn lemma_depth_one_are_direct_callers(
    hits: Seq<ImpactRow>,
    calls: Seq<(Seq<char>, Seq<char>)>,
    rows: Seq<SymbolRow>,
    t: Seq<char>,
    max_depth: Option<usize>,
    u: Seq<char>,
)
    requires
        impact_ok(hits, calls, rows, t, max_depth),
        within_cap(max_depth, 1),
    ensures
        (exists|i: int| 0 <= i < hits.len() && #[trigger] hits[i].id@ == u && hits[i].depth == 1) <==> (u != t
            && meta_ids(rows).contains(u) && calls.contains((u, t))),
{
    let l1 = level(calls, rows, t, 1);
    assert(level(calls, rows, t, 0).contains(t));
    assert(reached(calls, rows, t, 0) =~= set![t]);
    if u != t && meta_ids(rows).contains(u) && calls.contains((u, t)) {
        assert(l1.contains(u));
        let i = choose|i: int| 0 <= i < hits.len() && hits[i].id@ == u;
        let k = hits[i].depth as nat;
        assert(level(calls, rows, t, k).contains(u));
        if k != 1 {
            if k < 1 {
                lemma_levels_disjoint(calls, rows, t, k, 1, u);
            } else {
                lemma_levels_disjoint(calls, rows, t, 1, k, u);
            }
        }
    }
    if exists|i: int| 0 <= i < hits.len() && #[trigger] hits[i].id@ == u && hits[i].depth == 1 {
        let i = choose|i: int| 0 <= i < hits.len() && #[trigger] hits[i].id@ == u && hits[i].depth == 1;
        assert(l1.contains(u));
        let v = choose|v: Seq<char>| level(calls, rows, t, 0).contains(v) && calls.contains((u, v));
        assert(v == t);
    }
}


/// `vs` is a chain of calls down to `t`: it starts at `t`, and each next
/// symbol has metadata and calls the one before it.
pub open spec fn call_chain(calls: Seq<(Seq<char>, Seq<char>)>, rows: Seq<SymbolRow>, t: Seq<char>, vs: Seq<Seq<char>>) -> bool {
    &&& vs.len() >= 1
    &&& vs[0] == t
    &&& forall|i: int|
        0 <= i < vs.len() - 1 ==> calls.contains((#[trigger] vs[i + 1], vs[i])) && meta_ids(rows).contains(vs[i + 1])
}

/// Some chain of `k` calls leads from `u` down to `t`.
pub open spec fn chain_of(calls: Seq<(Seq<char>, Seq<char>)>, rows: Seq<SymbolRow>, t: Seq<char>, u: Seq<char>, k: nat) -> bool {
    exists|vs: Seq<Seq<char>>| #[trigger] call_chain(calls, rows, t, vs) && vs.len() == k + 1 && vs.last() == u
}

proof fn lemma_level_has_chain(calls: Seq<(Seq<char>, Seq<char>)>, rows: Seq<SymbolRow>, t: Seq<char>, k: nat, u: Seq<char>)
    requires
        level(calls, rows, t, k).contains(u),
    ensures
        chain_of(calls, rows, t, u, k),
    decreases k,
{
    if k == 0 {
        assert(call_chain(calls, rows, t, seq![t]));
    } else {
        let v = choose|v: Seq<char>| level(calls, rows, t, (k - 1) as nat).contains(v) && calls.contains((u, v));
        lemma_level_has_chain(calls, rows, t, (k - 1) as nat, v);
        let vs = choose|vs: Seq<Seq<char>>| #[trigger] call_chain(calls, rows, t, vs) && vs.len() == k && vs.last() == v;
        let ws = vs.push(u);
        assert forall|i: int| 0 <= i < ws.len() - 1 implies calls.contains((#[trigger] ws[i + 1], ws[i])) && meta_ids(
            rows,
        ).contains(ws[i + 1]) by {
            if i < ws.len() - 2 {
                assert(ws[i + 1] == vs[i + 1] && ws[i] == vs[i]);
            } else {
                assert(ws[i + 1] == u && ws[i] == v);
            }
        }
        assert(call_chain(calls, rows, t, ws));
    }
}

proof fn lemma_reached_has_level(calls: Seq<(Seq<char>, Seq<char>)>, rows: Seq<SymbolRow>, t: Seq<char>, k: nat, u: Seq<char>)
    requires
        reached(calls, rows, t, k).contains(u),
    ensures
        exists|j: nat| j <= k && #[trigger] level(calls, rows, t, j).contains(u),
    decreases k,
{
    if k == 0 {
        assert(level(calls, rows, t, 0).contains(u));
    } else if reached(calls, rows, t, (k - 1) as nat).contains(u) {
        lemma_reached_has_level(calls, rows, t, (k - 1) as nat, u);
        let j = choose|j: nat| j <= k - 1 && #[trigger] level(calls, rows, t, j).contains(u);
    } else {
        assert(level(calls, rows, t, k).contains(u));
    }
}

proof fn lemma_chain_reached(calls: Seq<(Seq<char>, Seq<char>)>, rows: Seq<SymbolRow>, t: Seq<char>, u: Seq<char>, m: nat)
    requires
        chain_of(calls, rows, t, u, m),
    ensures
        reached(calls, rows, t, m).contains(u),
    decreases m,
{
    let vs = choose|vs: Seq<Seq<char>>| #[trigger] call_chain(calls, rows, t, vs) && vs.len() == m + 1 && vs.last() == u;
    if m == 0 {
        assert(u == t);
    } else {
        let v = vs[m - 1];
        let ws = vs.take(m as int);
        assert forall|i: int| 0 <= i < ws.len() - 1 implies calls.contains((#[trigger] ws[i + 1], ws[i])) && meta_ids(
            rows,
        ).contains(ws[i + 1]) by {
            assert(ws[i + 1] == vs[i + 1] && ws[i] == vs[i]);
        }
        assert(call_chain(calls, rows, t, ws));
        assert(ws.last() == v);
        lemma_chain_reached(calls, rows, t, v, (m - 1) as nat);
        assert(calls.contains((vs[(m - 1) + 1], vs[m - 1])));
        assert(vs[m as int] == u);
        lemma_reached_has_level(calls, rows, t, (m - 1) as nat, v);
        let j = choose|j: nat| j <= m - 1 && #[trigger] level(calls, rows, t, j).contains(v);
        // u is reached one step after v's level at the latest
        if !reached(calls, rows, t, j).contains(u) {
            assert(level(calls, rows, t, j + 1).contains(u));
        }
        assert(reached(calls, rows, t, j + 1).contains(u));
        lemma_reached_grows(calls, rows, t, j + 1, m);
    }
}

/// A symbol is at level `k` of the impact of `t` exactly when `k` is the
/// length of its shortest chain of calls down to `t` (every symbol after
/// `t` on the chain having metadata). With `impact_ok`, the impact of `t`
/// is the set of symbols, other than `t`, with such a chain of length at
/// most the cap, each at the length of its shortest chain.
pub proof fn lemma_level_is_shortest_chain(
    calls: Seq<(Seq<char>, Seq<char>)>,
    rows: Seq<SymbolRow>,
    t: Seq<char>,
    k: nat,
    u: Seq<char>,
)
    ensures
        level(calls, rows, t, k).contains(u) <==> (chain_of(calls, rows, t, u, k) && forall|m: nat|
            m < k ==> !#[trigger] chain_of(calls, rows, t, u, m)),
{
    if level(calls, rows, t, k).contains(u) {
        lemma_level_has_chain(calls, rows, t, k, u);
        assert forall|m: nat| m < k implies !#[trigger] chain_of(calls, rows, t, u, m) by {
            if chain_of(calls, rows, t, u, m) {
                lemma_chain_reached(calls, rows, t, u, m);
                lemma_reached_has_level(calls, rows, t, m, u);
                let j = choose|j: nat| j <= m && #[trigger] level(calls, rows, t, j).contains(u);
                lemma_levels_disjoint(calls, rows, t, j, k, u);
            }
        }
    }
    if chain_of(calls, rows, t, u, k) && forall|m: nat| m < k ==> !#[trigger] chain_of(calls, rows, t, u, m) {
        lemma_chain_reached(calls, rows, t, u, k);
        lemma_reached_has_level(calls, rows, t, k, u);
        let j = choose|j: nat| j <= k && #[trigger] level(calls, rows, t, j).contains(u);
        lemma_level_has_chain(calls, rows, t, j, u);
        if j < k {
            assert(chain_of(calls, rows, t, u, j));
        }
    }
}

} // verus!
