//! Which symbols count as dead code: functions and methods nobody calls,
//! apart from entry points.
use crate::impact::{top_len, SymbolRow};
use crate::ranking::{is_sort_perm, score_key, score_key_exec, sort_order};
use crate::text::{
    before_first, before_first_chars, ends_with, ends_with_chars, starts_with, starts_with_chars, str_eq,
    string_from_chars, to_chars,
};
use vstd::prelude::*;

verus! {

/// One symbol reported as dead code.
#[derive(Debug, Clone)]
pub struct DeadCodeRow {
    pub id: String,
    pub name: String,
    pub kind: String,
    /// The file the symbol lives in: its id before the first `::`.
    pub file: String,
    pub start_line: usize,
    /// The bits of the symbol's PageRank score, if it has one.
    pub pagerank_bits: Option<u64>,
}

/// Options for dead code detection.
#[derive(Debug, Clone)]
pub struct DeadCodeOptions {
    /// Maximum number of results to return. `None` = no limit.
    pub top: Option<usize>,
    /// Filter to a specific kind ("Function" or "Method"). `None` = both.
    pub kind: Option<String>,
}

impl Default for DeadCodeOptions {
    fn default() -> (r: Self)
        ensures
            r.top == Some(100usize),
            r.kind is None,
    {
        DeadCodeOptions { top: Some(100), kind: None }
    }
}

/// Names that are never reported as dead.
pub open spec fn entry_point_names() -> Seq<Seq<char>> {
    seq!["main"@, "init"@, "__init__"@, "setup"@, "teardown"@, "setUp"@, "tearDown"@]
}

/// `name` is an entry point: one of the fixed names, or a test by its name
/// (`test_*`, `*_test`, `Test*`, `test`).
pub open spec fn entry_point(name: Seq<char>) -> bool {
    ||| entry_point_names().contains(name)
    ||| starts_with(name, "test_"@)
    ||| ends_with(name, "_test"@)
    ||| starts_with(name, "Test"@)
    ||| name == "test"@
}

/// Whether `name` is an entry point and so never reported as dead.
pub fn is_entry_point(name: &str) -> (r: bool)
    ensures
        r == entry_point(name@),
{
    let fixed = str_eq(name, "main") || str_eq(name, "init") || str_eq(name, "__init__")
        || str_eq(name, "setup") || str_eq(name, "teardown") || str_eq(name, "setUp") || str_eq(
        name,
        "tearDown",
    );
    proof {
        let names = entry_point_names();
        assert(names[0] == "main"@ && names[1] == "init"@ && names[2] == "__init__"@ && names[3]
            == "setup"@ && names[4] == "teardown"@ && names[5] == "setUp"@ && names[6]
            == "tearDown"@);
        if names.contains(name@) {
            let i = choose|i: int| 0 <= i < names.len() && names[i] == name@;
            assert(fixed);
        }
    }
    if fixed {
        return true;
    }
    let cs = to_chars(name);
    let p1 = to_chars("test_");
    let p2 = to_chars("_test");
    let p3 = to_chars("Test");
    starts_with_chars(cs.as_slice(), p1.as_slice()) || ends_with_chars(cs.as_slice(), p2.as_slice())
        || starts_with_chars(cs.as_slice(), p3.as_slice()) || str_eq(name, "test")
}

/// The entry point patterns, for display.
pub fn entry_point_patterns() -> (r: Vec<&'static str>)
    ensures
        r@.map_values(|s: &str| s@) == entry_point_names() + seq!["test_*"@, "*_test"@, "Test*"@, "test"@],
{
    let r = vec!["main", "init", "__init__", "setup", "teardown", "setUp", "tearDown", "test_*", "*_test", "Test*", "test"];
    proof {
        assert(r@.map_values(|s: &str| s@) =~= entry_point_names() + seq!["test_*"@, "*_test"@, "Test*"@, "test"@]);
    }
    r
}

/// A symbol of kind `kind` named `name` is reported as dead: it is a
/// function or method, not an entry point, has no callers, and matches
/// the kind filter if one is given.
pub open spec fn dead_candidate(kind: Seq<char>, name: Seq<char>, has_callers: bool, filter: Option<Seq<char>>) -> bool {
    &&& (kind == "Function"@ || kind == "Method"@)
    &&& !entry_point(name)
    &&& !has_callers
    &&& (filter matches Some(f) ==> kind == f)
}

/// Whether a symbol is reported as dead code.
pub fn is_dead_candidate(kind: &str, name: &str, has_callers: bool, opts: &DeadCodeOptions) -> (r: bool)
    ensures
        r == dead_candidate(
            kind@,
            name@,
            has_callers,
            match opts.kind {
                Some(k) => Some(k@),
                None => None,
            },
        ),
{
    if !str_eq(kind, "Function") && !str_eq(kind, "Method") {
        return false;
    }
    if is_entry_point(name) {
        return false;
    }
    if has_callers {
        return false;
    }
    match &opts.kind {
        Some(k) => str_eq(kind, k.as_str()),
        None => true,
    }
}

/// Some call has `id` as its callee (`calls` holds `(caller, callee)`
/// pairs).
pub open spec fn has_callers(calls: Seq<(String, String)>, id: Seq<char>) -> bool {
    exists|m: int| 0 <= m < calls.len() && #[trigger] calls[m].1@ == id
}

pub open spec fn opt_view(o: Option<String>) -> Option<Seq<char>> {
    match o {
        Some(k) => Some(k@),
        None => None,
    }
}

/// The symbols among the first `k` that are reported as dead, in order.
pub open spec fn dead_upto(symbols: Seq<SymbolRow>, calls: Seq<(String, String)>, filter: Option<Seq<char>>, k: int) -> Seq<
    SymbolRow,
>
    decreases k,
{
    if k <= 0 {
        Seq::empty()
    } else {
        let s = symbols[k - 1];
        let before = dead_upto(symbols, calls, filter, k - 1);
        if dead_candidate(s.kind@, s.name@, has_callers(calls, s.id@), filter) {
            before.push(s)
        } else {
            before
        }
    }
}

/// The sort key of a dead symbol: lowest score first, a missing score
/// counting as 0.0.
pub open spec fn dead_key(bits: Option<u64>) -> (u64, u64) {
    match bits {
        Some(b) => (0u64, score_key(b)),
        None => (0u64, score_key(0)),
    }
}

pub open spec fn dead_keys(rows: Seq<SymbolRow>) -> Seq<(u64, u64)> {
    rows.map_values(|r: SymbolRow| dead_key(r.pagerank_bits))
}

pub open spec fn symbol_ids(rows: Seq<SymbolRow>) -> Seq<Seq<char>> {
    rows.map_values(|r: SymbolRow| r.id@)
}

/// A reported row shows its symbol.
pub open spec fn shows(d: DeadCodeRow, s: SymbolRow) -> bool {
    &&& d.id@ == s.id@
    &&& d.name@ == s.name@
    &&& d.kind@ == s.kind@
    &&& d.file@ == before_first(s.id@, "::"@)
    &&& d.start_line == s.start_line
    &&& d.pagerank_bits == s.pagerank_bits
}

fn has_callers_exec(calls: &[(String, String)], id: &str) -> (r: bool)
    ensures
        r == has_callers(calls@, id@),
{
    let mut m: usize = 0;
    while m < calls.len()
        invariant
            m <= calls@.len(),
            forall|j: int| 0 <= j < m ==> calls@[j].1@ != id@,
        decreases calls.len() - m,
    {
        if str_eq(calls[m].1.as_str(), id) {
            return true;
        }
        m = m + 1;
    }
    false
}

fn dead_key_exec(bits: Option<u64>) -> (k: (u64, u64))
    ensures
        k == dead_key(bits),
{
    match bits {
        Some(b) => (0, score_key_exec(b)),
        None => (0, score_key_exec(0)),
    }
}

/// Dead code: the functions and methods that nobody calls (`calls` holds
/// `(caller, callee)` pairs), apart from entry points and, when
/// `opts.kind` is set, those of another kind; ordered by PageRank score,
/// lowest first (a missing score counting as 0.0), ties by id; cut to
/// `opts.top`.
pub fn find_dead_code(symbols: &[SymbolRow], calls: &[(String, String)], opts: &DeadCodeOptions) -> (out: Vec<DeadCodeRow>)
    ensures
        ({
            let cands = dead_upto(symbols@, calls@, opt_view(opts.kind), symbols@.len() as int);
            exists|p: Seq<usize>|
                #[trigger] is_sort_perm(p, dead_keys(cands), symbol_ids(cands)) && out@.len() == top_len(opts.top, cands.len())
                    && forall|j: int| 0 <= j < out@.len() ==> shows(#[trigger] out@[j], cands[p[j] as int])
        }),
{
    let ghost filter = opt_view(opts.kind);
    let mut cands: Vec<&SymbolRow> = Vec::new();
    let mut keys: Vec<(u64, u64)> = Vec::new();
    let mut ids: Vec<String> = Vec::new();
    let mut k: usize = 0;
    while k < symbols.len()
        invariant
            k <= symbols@.len(),
            filter == opt_view(opts.kind),
            cands@.len() == keys@.len(),
            cands@.len() == ids@.len(),
            cands@.map_values(|r: &SymbolRow| *r) == dead_upto(symbols@, calls@, filter, k as int),
            forall|j: int| 0 <= j < cands@.len() ==> keys@[j] == dead_key(cands@[j].pagerank_bits),
            forall|j: int| 0 <= j < cands@.len() ==> #[trigger] ids@[j]@ == cands@[j].id@,
        decreases symbols.len() - k,
    {
        let s = &symbols[k];
        let hc = has_callers_exec(calls, s.id.as_str());
        if is_dead_candidate(s.kind.as_str(), s.name.as_str(), hc, opts) {
            let ghost before = cands@.map_values(|r: &SymbolRow| *r);
            cands.push(s);
            keys.push(dead_key_exec(s.pagerank_bits));
            ids.push(s.id.clone());
            proof {
                assert(cands@.map_values(|r: &SymbolRow| *r) =~= before.push(*s));
            }
        }
        k = k + 1;
    }
    let ghost cv = cands@.map_values(|r: &SymbolRow| *r);
    proof {
        assert(keys@ =~= dead_keys(cv));
        assert(ids@.map_values(|s: String| s@) =~= symbol_ids(cv));
    }
    let p = sort_order(keys.as_slice(), ids.as_slice());
    let m = crate::impact::top_len_exec(opts.top, cands.len());
    let sep = to_chars("::");
    proof {
        reveal_strlit("::");
        assert(sep@.len() == 2);
    }
    let mut out: Vec<DeadCodeRow> = Vec::new();
    let mut j: usize = 0;
    while j < m
        invariant
            cv == cands@.map_values(|r: &SymbolRow| *r),
            m == top_len(opts.top, cv.len()),
            m <= cv.len(),
            j <= m,
            sep@ == "::"@,
            sep@.len() == 2,
            is_sort_perm(p@, dead_keys(cv), symbol_ids(cv)),
            out@.len() == j,
            forall|i: int| 0 <= i < j ==> shows(#[trigger] out@[i], cv[p@[i] as int]),
        decreases m - j,
    {
        let s = cands[p[j]];
        let cs = to_chars(s.id.as_str());
        let file = string_from_chars(before_first_chars(cs.as_slice(), sep.as_slice()).as_slice());
        out.push(
            DeadCodeRow {
                id: s.id.clone(),
                name: s.name.clone(),
                kind: s.kind.clone(),
                file,
                start_line: s.start_line,
                pagerank_bits: s.pagerank_bits,
            },
        );
        j = j + 1;
    }
    out
}

/// Every symbol reported as dead is a function or method, not an entry
/// point, that no call reaches, and of the kind asked for.
pub proof fn lemma_dead_symbols_uncalled(
    symbols: Seq<SymbolRow>,
    calls: Seq<(String, String)>,
    filter: Option<Seq<char>>,
    k: int,
)
    ensures
        forall|i: int|
            0 <= i < dead_upto(symbols, calls, filter, k).len() ==> {
                let s = #[trigger] dead_upto(symbols, calls, filter, k)[i];
                &&& s.kind@ == "Function"@ || s.kind@ == "Method"@
                &&& !entry_point(s.name@)
                &&& !has_callers(calls, s.id@)
                &&& (filter matches Some(f) ==> s.kind@ == f)
            },
    decreases k,
{
    if k > 0 {
        lemma_dead_symbols_uncalled(symbols, calls, filter, k - 1);
    }
}


/// Every function or method that no call reaches, that is not an entry
/// point and that has the kind asked for, is reported among the dead
/// candidates.
pub proof fn lemma_uncalled_symbols_reported(
    symbols: Seq<SymbolRow>,
    calls: Seq<(String, String)>,
    filter: Option<Seq<char>>,
    k: int,
)
    requires
        0 <= k <= symbols.len(),
    ensures
        forall|m: int|
            0 <= m < k && dead_candidate(
                symbols[m].kind@,
                symbols[m].name@,
                has_callers(calls, symbols[m].id@),
                filter,
            ) ==> dead_upto(symbols, calls, filter, k).contains(#[trigger] symbols[m]),
    decreases k,
{
    if k > 0 {
        lemma_uncalled_symbols_reported(symbols, calls, filter, k - 1);
        let before = dead_upto(symbols, calls, filter, k - 1);
        let s = symbols[k - 1];
        assert forall|m: int|
            0 <= m < k && dead_candidate(
                symbols[m].kind@,
                symbols[m].name@,
                has_callers(calls, symbols[m].id@),
                filter,
            ) implies dead_upto(symbols, calls, filter, k).contains(#[trigger] symbols[m]) by {
            if m == k - 1 {
                assert(dead_upto(symbols, calls, filter, k) == before.push(s));
                assert(before.push(s)[before.len() as int] == s);
            } else {
                assert(before.contains(symbols[m]));
                let x = choose|x: int| 0 <= x < before.len() && before[x] == symbols[m];
                if dead_candidate(s.kind@, s.name@, has_callers(calls, s.id@), filter) {
                    assert(before.push(s)[x] == symbols[m]);
                }
            }
        }
    }
}


/// A name is an entry point exactly when it is `main`, `init`,
/// `__init__`, `setup`, `teardown`, `setUp` or `tearDown`, or names a test:
/// it begins with `test_` or `Test`, ends with `_test`, or is `test`. A
/// `test_` or `_test` elsewhere in the name does not count.
pub proof fn lemma_entry_points_by_name(name: Seq<char>)
    ensures
        entry_point(name) <==> (name == "main"@ || name == "init"@ || name == "__init__"@ || name == "setup"@
            || name == "teardown"@ || name == "setUp"@ || name == "tearDown"@ || (name.len() >= 5
            && name.subrange(0, 5) == "test_"@) || (name.len() >= 5 && name.subrange(name.len() - 5, name.len() as int)
            == "_test"@) || (name.len() >= 4 && name.subrange(0, 4) == "Test"@) || name == "test"@),
{
    reveal_strlit("test_");
    reveal_strlit("_test");
    reveal_strlit("Test");
    let names = entry_point_names();
    assert(names.contains(name) <==> (name == "main"@ || name == "init"@ || name == "__init__"@ || name == "setup"@
        || name == "teardown"@ || name == "setUp"@ || name == "tearDown"@)) by {
        if names.contains(name) {
            let k = choose|k: int| 0 <= k < names.len() && names[k] == name;
        }
        if name == "main"@ { assert(names[0] == name); }
        if name == "init"@ { assert(names[1] == name); }
        if name == "__init__"@ { assert(names[2] == name); }
        if name == "setup"@ { assert(names[3] == name); }
        if name == "teardown"@ { assert(names[4] == name); }
        if name == "setUp"@ { assert(names[5] == name); }
        if name == "tearDown"@ { assert(names[6] == name); }
    }
    assert(name.take(5) =~= name.subrange(0, 5) || name.len() < 5);
    assert(name.take(4) =~= name.subrange(0, 4) || name.len() < 4);
    assert(name.len() >= 5 ==> name.skip(name.len() - 5) =~= name.subrange(name.len() - 5, name.len() as int));
}

/// An uncalled function or method is reported as dead whenever its name
/// neither begins with `t` or `T`, nor ends with `_test`, nor is one of
/// the fixed entry-point names (so `latest_version` is reported), and it
/// has the kind asked for.
pub proof fn lemma_plain_names_reported(
    symbols: Seq<SymbolRow>,
    calls: Seq<(String, String)>,
    filter: Option<Seq<char>>,
    m: int,
)
    requires
        0 <= m < symbols.len(),
        symbols[m].kind@ == "Function"@ || symbols[m].kind@ == "Method"@,
        !has_callers(calls, symbols[m].id@),
        filter matches Some(f) ==> symbols[m].kind@ == f,
        symbols[m].name@.len() > 0,
        symbols[m].name@[0] != 't' && symbols[m].name@[0] != 'T',
        !(symbols[m].name@.len() >= 5 && symbols[m].name@.subrange(
            symbols[m].name@.len() - 5,
            symbols[m].name@.len() as int,
        ) == "_test"@),
        !entry_point_names().contains(symbols[m].name@),
    ensures
        dead_upto(symbols, calls, filter, symbols.len() as int).contains(symbols[m]),
{
    let name = symbols[m].name@;
    lemma_entry_points_by_name(name);
    reveal_strlit("test_");
    reveal_strlit("Test");
    reveal_strlit("test");
    reveal_strlit("main");
    reveal_strlit("init");
    reveal_strlit("__init__");
    reveal_strlit("setup");
    reveal_strlit("teardown");
    reveal_strlit("setUp");
    reveal_strlit("tearDown");
    if name.len() >= 5 && name.subrange(0, 5) == "test_"@ {
        assert(name[0] == name.subrange(0, 5)[0]);
    }
    if name.len() >= 4 && name.subrange(0, 4) == "Test"@ {
        assert(name[0] == name.subrange(0, 4)[0]);
    }
    assert(!entry_point(name));
    lemma_uncalled_symbols_reported(symbols, calls, filter, symbols.len() as int);
}

} // verus!
