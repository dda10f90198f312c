use std::collections::HashMap;
use synapse::dead_code::{find_dead_code, DeadCodeOptions};
use synapse::impact::{
    compute_impact, resolve_impact_target, several_matches, sort_and_rank, suggestions, ImpactError, ImpactOptions,
    ImpactRow, SymbolRow,
};
use synapse::ranking::{score_key_exec, sort_order, str_lt};

fn row(id: &str, pagerank: Option<f64>) -> SymbolRow {
    let name = id.rsplit("::").next().unwrap_or(id).to_string();
    SymbolRow { id: id.to_string(), name, kind: "Function".to_string(), start_line: 1, pagerank_bits: pagerank.map(f64::to_bits) }
}

fn rows_of(ids: &[&str]) -> Vec<SymbolRow> {
    ids.iter().map(|i| row(i, None)).collect()
}

/// `(caller, callee)` pairs, as the call graph stores them.
fn calls_of(pairs: &[(&str, &str)]) -> Vec<(String, String)> {
    pairs.iter().map(|(a, b)| (a.to_string(), b.to_string())).collect()
}

fn unlimited() -> ImpactOptions {
    ImpactOptions { max_depth: None, top: None }
}

fn depths(out: &[ImpactRow]) -> HashMap<String, usize> {
    out.iter().map(|r| (r.id.clone(), r.depth)).collect()
}

#[test]
fn test_impact_direct_callers() {
    let out = compute_impact("B", &calls_of(&[("A", "B")]), &rows_of(&["A", "B"]), &unlimited());
    assert_eq!(out.len(), 1);
    assert_eq!(out[0].id, "A");
    assert_eq!(out[0].depth, 1);
}

#[test]
fn test_impact_transitive_chain() {
    let calls = calls_of(&[("A", "B"), ("B", "C"), ("C", "D")]);
    let out = compute_impact("D", &calls, &rows_of(&["A", "B", "C", "D"]), &unlimited());
    assert_eq!(out.len(), 3);
    let by_id = depths(&out);
    assert_eq!(by_id["C"], 1);
    assert_eq!(by_id["B"], 2);
    assert_eq!(by_id["A"], 3);
}

#[test]
fn test_impact_cycle() {
    let out = compute_impact("A", &calls_of(&[("A", "B"), ("B", "A")]), &rows_of(&["A", "B"]), &unlimited());
    assert_eq!(out.len(), 1);
    assert_eq!(out[0].id, "B");
    assert_eq!(out[0].depth, 1);
}

#[test]
fn test_impact_diamond() {
    let calls = calls_of(&[("A", "B"), ("A", "C"), ("B", "D"), ("C", "D")]);
    let out = compute_impact("D", &calls, &rows_of(&["A", "B", "C", "D"]), &unlimited());
    assert_eq!(out.len(), 3, "A, B, C each appear once");
    let by_id = depths(&out);
    assert_eq!(by_id["B"], 1);
    assert_eq!(by_id["C"], 1);
    assert_eq!(by_id["A"], 2);
}

#[test]
fn test_impact_no_callers() {
    let out = compute_impact("A", &[], &rows_of(&["A", "B"]), &unlimited());
    assert!(out.is_empty());
}

#[test]
fn test_impact_self_recursion() {
    let out = compute_impact("A", &calls_of(&[("A", "A")]), &rows_of(&["A"]), &unlimited());
    assert!(out.is_empty());
}

#[test]
fn test_impact_max_depth_caps() {
    let calls = calls_of(&[("A", "B"), ("B", "C"), ("C", "D"), ("D", "E")]);
    let opts = ImpactOptions { max_depth: Some(2), top: None };
    let out = compute_impact("E", &calls, &rows_of(&["A", "B", "C", "D", "E"]), &opts);
    let by_id = depths(&out);
    assert_eq!(by_id["D"], 1);
    assert_eq!(by_id["C"], 2);
    assert!(!by_id.contains_key("B"), "B is at depth 3, beyond the cap");
    assert!(!by_id.contains_key("A"));
}

#[test]
fn test_impact_max_depth_zero() {
    let opts = ImpactOptions { max_depth: Some(0), top: None };
    let out = compute_impact("B", &calls_of(&[("A", "B")]), &rows_of(&["A", "B"]), &opts);
    assert!(out.is_empty());
}

#[test]
fn test_impact_dangling_callers_skipped() {
    let out = compute_impact("B", &calls_of(&[("A", "B")]), &rows_of(&["B"]), &unlimited());
    assert!(out.is_empty());
}

#[test]
fn impact_rows_carry_metadata_and_file() {
    let rows = vec![
        SymbolRow {
            id: "src/a.rs::caller".to_string(),
            name: "caller".to_string(),
            kind: "Method".to_string(),
            start_line: 12,
            pagerank_bits: Some(0.25f64.to_bits()),
        },
        row("src/b.rs::callee", None),
    ];
    let out = compute_impact("src/b.rs::callee", &calls_of(&[("src/a.rs::caller", "src/b.rs::callee")]), &rows, &unlimited());
    assert_eq!(out.len(), 1);
    assert_eq!(out[0].rank, 0);
    assert_eq!(out[0].name, "caller");
    assert_eq!(out[0].kind, "Method");
    assert_eq!(out[0].file, "src/a.rs");
    assert_eq!(out[0].start_line, 12);
    assert_eq!(out[0].pagerank_bits, Some(0.25f64.to_bits()));
}

#[test]
fn impact_depths_never_decrease_and_cap_keeps_lower_levels() {
    // F -> E -> D, G -> D, H -> G: levels {E, G}, {F, H}
    let calls = calls_of(&[("F", "E"), ("E", "D"), ("G", "D"), ("H", "G")]);
    let rows = rows_of(&["D", "E", "F", "G", "H"]);
    let all = compute_impact("D", &calls, &rows, &unlimited());
    assert_eq!(all.len(), 4);
    for w in all.windows(2) {
        assert!(w[0].depth <= w[1].depth);
    }
    let capped = compute_impact("D", &calls, &rows, &ImpactOptions { max_depth: Some(1), top: None });
    let by_id = depths(&all);
    for r in &capped {
        assert_eq!(by_id[&r.id], r.depth);
    }
    assert_eq!(capped.len(), 2);
}

fn make_row(id: &str, depth: usize, pagerank: Option<f64>) -> ImpactRow {
    ImpactRow {
        rank: 0,
        id: id.to_string(),
        name: id.to_string(),
        kind: "Function".to_string(),
        file: "f".to_string(),
        start_line: 1,
        depth,
        pagerank_bits: pagerank.map(f64::to_bits),
    }
}

#[test]
fn test_sort_pagerank_desc() {
    let mut rows = vec![make_row("a", 1, Some(0.01)), make_row("b", 1, Some(0.10)), make_row("c", 1, Some(0.05))];
    sort_and_rank(&mut rows, &ImpactOptions::default());
    assert_eq!(rows[0].id, "b");
    assert_eq!(rows[1].id, "c");
    assert_eq!(rows[2].id, "a");
    assert_eq!(rows[0].rank, 1);
    assert_eq!(rows[1].rank, 2);
    assert_eq!(rows[2].rank, 3);
}

#[test]
fn test_sort_null_pagerank_last_with_id_tiebreak() {
    let mut rows = vec![make_row("z", 1, None), make_row("a", 1, None), make_row("m", 1, Some(0.5))];
    sort_and_rank(&mut rows, &ImpactOptions::default());
    assert_eq!(rows[0].id, "m", "non-null PageRank ranks first");
    assert_eq!(rows[1].id, "a", "nulls tiebreak by id ASC");
    assert_eq!(rows[2].id, "z");
}

#[test]
fn test_sort_truncates_to_top() {
    let mut rows: Vec<ImpactRow> =
        (0..100).map(|i| make_row(&format!("s{i}"), 1, Some(1.0 / (f64::from(i) + 1.0)))).collect();
    let opts = ImpactOptions { max_depth: None, top: Some(10) };
    sort_and_rank(&mut rows, &opts);
    assert_eq!(rows.len(), 10);
    assert_eq!(rows[0].rank, 1);
    assert_eq!(rows[9].rank, 10);
    assert_eq!(rows[0].id, "s0");
    assert_eq!(rows[9].id, "s9");
}

#[test]
fn sort_equal_scores_tiebreak_by_id() {
    let mut rows = vec![make_row("b", 1, Some(0.5)), make_row("a", 2, Some(0.5)), make_row("c", 1, Some(0.7))];
    sort_and_rank(&mut rows, &unlimited());
    let ids: Vec<&str> = rows.iter().map(|r| r.id.as_str()).collect();
    assert_eq!(ids, vec!["c", "a", "b"]);
    assert_eq!(rows[1].depth, 2);
}

#[test]
fn score_keys_follow_the_scores() {
    let scores = [-3.5f64, -0.5, 0.0, 1e-9, 0.25, 0.5, 7.0];
    for w in scores.windows(2) {
        assert!(score_key_exec(w[0].to_bits()) < score_key_exec(w[1].to_bits()));
    }
    assert_eq!(score_key_exec(0.0f64.to_bits()), 0x8000_0000_0000_0000);
}

#[test]
fn str_order_is_the_order_of_str() {
    let words = ["", "a", "ab", "abc", "b", "ba", "z", "é"];
    for x in words {
        for y in words {
            assert_eq!(str_lt(x, y), x < y, "{x:?} < {y:?}");
        }
    }
}

#[test]
fn sort_order_sorts_by_keys_then_ids() {
    let keys = vec![(1, 0), (0, 5), (0, 5), (0, 1)];
    let ids: Vec<String> = vec!["x".into(), "b".into(), "a".into(), "z".into()];
    assert_eq!(sort_order(&keys, &ids), vec![3, 2, 1, 0]);
}

#[test]
fn resolve_target_without_rows_is_no_match() {
    match resolve_impact_target("foo", true, &[]) {
        Err(ImpactError::NoMatch { target, suggestions }) => {
            assert_eq!(target, "foo");
            assert!(suggestions.is_empty());
        },
        Ok(_) => panic!("expected no match"),
    }
}

#[test]
fn resolve_target_takes_first_match_and_counts() {
    let rows = rows_of(&["a.rs::parse", "b.rs::parse", "c.rs::other"]);
    let (id, n) = match resolve_impact_target("parse", false, &rows) {
        Ok(x) => x,
        Err(e) => panic!("{}", e.message()),
    };
    assert_eq!(id, "a.rs::parse");
    assert_eq!(n, 2);
    assert_eq!(several_matches(n, "parse", &id), "Warning: 2 matches for 'parse'; using the first: a.rs::parse");
}

#[test]
fn unknown_target_gets_sorted_suggestions() {
    let rows = rows_of(&["z.rs::Parser", "a.rs::parse_file", "m.rs::unrelated", "b.rs::reparse"]);
    // exact lookup of "pars" fails; suggestions hold it case-insensitively
    match resolve_impact_target("Pars", false, &rows) {
        Err(ImpactError::NoMatch { target, suggestions }) => {
            assert_eq!(target, "Pars");
            assert_eq!(suggestions, vec!["a.rs::parse_file", "b.rs::reparse", "z.rs::Parser"]);
            let e = ImpactError::NoMatch { target, suggestions };
            assert_eq!(
                e.message(),
                "Symbol 'Pars' not found. Did you mean:\n  - a.rs::parse_file\n  - b.rs::reparse\n  - z.rs::Parser"
            );
        },
        Ok(_) => panic!("expected no match"),
    }
}

#[test]
fn suggestions_are_at_most_five() {
    let rows = rows_of(&["f::s6", "f::s5", "f::s4", "f::s3", "f::s2", "f::s1", "f::x"]);
    assert_eq!(suggestions("s", &rows), vec!["f::s1", "f::s2", "f::s3", "f::s4", "f::s5"]);
}

#[test]
fn no_match_message_without_suggestions() {
    let e = ImpactError::NoMatch { target: "nope".to_string(), suggestions: vec![] };
    assert_eq!(e.message(), "Symbol 'nope' not found");
}

// ───────────────────────── dead code ─────────────────────────

fn dead_rows_of(entries: &[(&str, &str)]) -> Vec<SymbolRow> {
    entries
        .iter()
        .enumerate()
        .map(|(i, (name, kind))| SymbolRow {
            id: format!("file.rs::{}", name),
            name: name.to_string(),
            kind: kind.to_string(),
            start_line: (i + 1) * 10,
            pagerank_bits: Some((0.001 * (i as f64 + 1.0)).to_bits()),
        })
        .collect()
}

fn dead_calls_of(edges: &[(&str, &str)]) -> Vec<(String, String)> {
    edges.iter().map(|(a, b)| (format!("file.rs::{}", a), format!("file.rs::{}", b))).collect()
}

#[test]
fn test_basic_dead_code() {
    let calls = dead_calls_of(&[("F", "E"), ("E", "D"), ("D", "A"), ("A", "B")]);
    let rows = dead_rows_of(&[
        ("A", "Function"),
        ("B", "Function"),
        ("C", "Function"),
        ("D", "Function"),
        ("E", "Function"),
        ("F", "Function"),
    ]);
    let out = find_dead_code(&rows, &calls, &DeadCodeOptions::default());
    assert_eq!(out.len(), 2);
    assert_eq!(out[0].name, "C");
    assert_eq!(out[1].name, "F");
    assert_eq!(out[0].file, "file.rs");
    assert_eq!(out[0].start_line, 30);
}

fn dead_of_one(name: &str) -> usize {
    find_dead_code(&dead_rows_of(&[(name, "Function")]), &[], &DeadCodeOptions::default()).len()
}

#[test]
fn test_entry_point_main_excluded() {
    assert_eq!(dead_of_one("main"), 0);
}

#[test]
fn test_entry_point_init_excluded() {
    assert_eq!(dead_of_one("init"), 0);
}

#[test]
fn test_entry_point_test_prefix_excluded() {
    assert_eq!(dead_of_one("test_parse"), 0);
}

#[test]
fn test_entry_point_test_suffix_excluded() {
    assert_eq!(dead_of_one("parser_test"), 0);
}

#[test]
fn test_entry_point_test_camel_excluded() {
    assert_eq!(dead_of_one("TestParse"), 0);
}

#[test]
fn test_entry_point_test_exact_excluded() {
    assert_eq!(dead_of_one("test"), 0);
}

#[test]
fn test_entry_point_setup_excluded() {
    assert_eq!(dead_of_one("setup"), 0);
}

#[test]
fn test_kind_filter_function_only() {
    let rows = dead_rows_of(&[("foo", "Function"), ("bar", "Method")]);
    let opts = DeadCodeOptions { kind: Some("Function".into()), ..Default::default() };
    let out = find_dead_code(&rows, &[], &opts);
    assert_eq!(out.len(), 1);
    assert_eq!(out[0].name, "foo");
}

#[test]
fn test_kind_filter_method_only() {
    let rows = dead_rows_of(&[("foo", "Function"), ("bar", "Method")]);
    let opts = DeadCodeOptions { kind: Some("Method".into()), ..Default::default() };
    let out = find_dead_code(&rows, &[], &opts);
    assert_eq!(out.len(), 1);
    assert_eq!(out[0].name, "bar");
}

#[test]
fn test_top_n_limits_results() {
    let rows = dead_rows_of(&[("a", "Function"), ("b", "Function"), ("c", "Function")]);
    let opts = DeadCodeOptions { top: Some(2), ..Default::default() };
    let out = find_dead_code(&rows, &[], &opts);
    assert_eq!(out.len(), 2);
    assert_eq!(out[0].name, "a");
    assert_eq!(out[1].name, "b");
}

#[test]
fn test_self_call_not_dead() {
    let out = find_dead_code(&dead_rows_of(&[("A", "Function")]), &dead_calls_of(&[("A", "A")]), &DeadCodeOptions::default());
    assert_eq!(out.len(), 0);
}

#[test]
fn test_non_function_kinds_excluded() {
    let rows = dead_rows_of(&[("MyStruct", "Struct"), ("MyClass", "Class")]);
    assert_eq!(find_dead_code(&rows, &[], &DeadCodeOptions::default()).len(), 0);
}

#[test]
fn test_sorted_by_pagerank_ascending() {
    let mut rows = dead_rows_of(&[("a", "Function"), ("b", "Function"), ("c", "Function")]);
    rows[0].pagerank_bits = Some(0.3f64.to_bits());
    rows[1].pagerank_bits = Some(0.1f64.to_bits());
    rows[2].pagerank_bits = Some(0.2f64.to_bits());
    let out = find_dead_code(&rows, &[], &DeadCodeOptions::default());
    assert_eq!(out.len(), 3);
    assert_eq!(out[0].name, "b");
    assert_eq!(out[1].name, "c");
    assert_eq!(out[2].name, "a");
}

#[test]
fn dead_code_missing_score_counts_as_zero() {
    let mut rows = dead_rows_of(&[("a", "Function"), ("b", "Function"), ("c", "Function")]);
    rows[0].pagerank_bits = Some(0.3f64.to_bits());
    rows[1].pagerank_bits = None;
    rows[2].pagerank_bits = Some(0.0f64.to_bits());
    let out = find_dead_code(&rows, &[], &DeadCodeOptions::default());
    let names: Vec<&str> = out.iter().map(|r| r.name.as_str()).collect();
    assert_eq!(names, vec!["b", "c", "a"]);
}

#[test]
fn sort_keeps_tied_rows_in_their_order() {
    let mut rows = vec![make_row("x", 3, Some(0.2)), make_row("x", 1, Some(0.2)), make_row("y", 2, Some(0.9))];
    sort_and_rank(&mut rows, &ImpactOptions::default());
    assert_eq!(rows[0].id, "y");
    assert_eq!((rows[1].id.as_str(), rows[1].depth), ("x", 3));
    assert_eq!((rows[2].id.as_str(), rows[2].depth), ("x", 1));
}

#[test]
fn zero_scores_of_either_sign_tie_and_fall_back_to_the_id() {
    assert_eq!(score_key_exec((-0.0f64).to_bits()), score_key_exec(0.0f64.to_bits()));
    assert!(score_key_exec((-1e-300f64).to_bits()) < score_key_exec((-0.0f64).to_bits()));
    let mut rows = vec![make_row("b", 1, Some(0.0)), make_row("a", 1, Some(-0.0))];
    sort_and_rank(&mut rows, &ImpactOptions::default());
    let ids: Vec<&str> = rows.iter().map(|r| r.id.as_str()).collect();
    assert_eq!(ids, vec!["a", "b"]);
    let dead = find_dead_code(&[row("d", Some(0.0)), row("c", Some(-0.0))], &[], &DeadCodeOptions::default());
    let ids: Vec<&str> = dead.iter().map(|r| r.id.as_str()).collect();
    assert_eq!(ids, vec!["c", "d"]);
}
