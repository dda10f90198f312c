use synapse::chunker::chunk_source_with_options;
use synapse::mcp::repo_registry::{RepoEntry, RepoRegistry};
use synapse::parser::ASTParser;
use synapse::query::format::format_ascii_table;
use synapse::resolver::{resolve_calls, resolve_imports};
use synapse::types::ast::{RawCall, RawImport};
use synapse::types::db::{FileRecord, SymbolRecord};
use synapse::watch::{WatchAction, WatchEvent, WatchState};

#[test]
fn windows_cover_every_line() {
    let content: String = (1..=8).map(|i| format!("line{i}\n")).collect();
    let chunks = chunk_source_with_options("f.txt", &content, &[], 3, 1);
    let texts: Vec<&str> = chunks.iter().map(|c| c.text.as_str()).collect();
    assert_eq!(
        texts,
        vec!["line1\nline2\nline3", "line3\nline4\nline5", "line5\nline6\nline7", "line7\nline8"]
    );
    for i in 1..=8 {
        let line = format!("line{i}");
        assert!(texts.iter().any(|t| t.lines().any(|l| l == line)), "{line} is in no window");
    }
}

#[test]
fn import_edges_stay_inside_the_index_and_are_unique() {
    let files = vec![
        FileRecord { path: "src/app.ts".to_string(), raw_imports: String::new() },
        FileRecord { path: "src/util.ts".to_string(), raw_imports: String::new() },
    ];
    let imports = vec![
        RawImport { path: "./util".to_string(), line: 1 },
        RawImport { path: "./util".to_string(), line: 2 },
        RawImport { path: "./missing".to_string(), line: 3 },
    ];
    let edges = resolve_imports(&files, &[Some(imports), None]);
    assert_eq!(edges, vec![("src/app.ts".to_string(), "src/util.ts".to_string())]);
}

#[test]
fn call_edges_join_indexed_symbols_once() {
    let symbols = vec![
        SymbolRecord { id: "a.rs::main".to_string(), name: "main".to_string(), kind: "Function".to_string(), raw_calls: String::new() },
        SymbolRecord { id: "a.rs::helper".to_string(), name: "helper".to_string(), kind: "Function".to_string(), raw_calls: String::new() },
    ];
    let calls = vec![
        RawCall { name: "helper".to_string(), line: 3, is_method: false },
        RawCall { name: "helper".to_string(), line: 3, is_method: false },
        RawCall { name: "nowhere".to_string(), line: 4, is_method: false },
    ];
    let edges = resolve_calls(&symbols, &[Some(calls), None], &[]);
    assert_eq!(edges, vec![("a.rs::main".to_string(), "a.rs::helper".to_string(), 3)]);
}

fn entry(name: &str, path: &str) -> RepoEntry {
    RepoEntry {
        name: name.to_string(),
        path: path.to_string(),
        db_path: format!("{path}/synapse.lbug"),
        indexed_at: "t".to_string(),
        indexed_commit: String::new(),
    }
}

#[test]
fn added_repo_is_found_by_name_and_names_stay_distinct() {
    let mut registry = RepoRegistry::default();
    registry.add_or_update(entry("one", "/a"), false).unwrap();
    registry.add_or_update(entry("two", "/b"), false).unwrap();
    assert_eq!(registry.find_by_name("two").map(|e| e.path.as_str()), Some("/b"));
    // a forced re-add keeps the registered name
    registry.add_or_update(entry("renamed", "/a"), true).unwrap();
    assert_eq!(registry.find_by_name("one").map(|e| e.path.as_str()), Some("/a"));
    assert!(registry.find_by_name("renamed").is_none());
    assert!(registry.add_or_update(entry("two", "/c"), false).is_err());
    let names: Vec<&str> = registry.entries.iter().map(|e| e.name.as_str()).collect();
    assert_eq!(names, vec!["one", "two"]);
}

#[test]
fn pending_paths_are_watched_and_listed_once() {
    let mut st = WatchState::new();
    let paths = vec!["/w/a.rs".to_string(), "/w/a.rs".to_string(), "/w/notes.txt".to_string(), "/w/b.py".to_string()];
    assert!(matches!(st.step(WatchEvent::Changed { paths: paths.clone(), access: false }, "synapse.lbug"), WatchAction::Continue));
    assert!(matches!(st.step(WatchEvent::Changed { paths, access: false }, "synapse.lbug"), WatchAction::Continue));
    assert_eq!(st.pending, vec!["/w/a.rs".to_string(), "/w/b.py".to_string()]);
}

#[test]
fn rust_symbols_each_have_one_containing_edge() {
    let code = "mod outer {\n    struct Inner;\n    impl Inner {\n        fn go() {}\n    }\n}\nfn top() { helper(); }\n";
    let a = ASTParser::parse_file("lib.rs", code);
    assert!(!a.nodes.is_empty());
    assert_eq!(a.edges.len(), a.nodes.len());
    for (i, (n, e)) in a.nodes.iter().zip(a.edges.iter()).enumerate() {
        assert_eq!(e.edge_type, "CONTAINS");
        assert_eq!(e.to_id, n.id);
        assert_eq!(n.id, format!("{}::{}", e.from_id, n.name));
        assert!(e.from_id == "lib.rs" || a.nodes[..i].iter().any(|m| m.id == e.from_id));
    }
}

fn sym(id: &str, name: &str, kind: &str) -> SymbolRecord {
    SymbolRecord { id: id.to_string(), name: name.to_string(), kind: kind.to_string(), raw_calls: String::new() }
}

#[test]
fn global_fallback_prefers_callables_and_edges_come_from_calls() {
    let symbols = vec![
        sym("a.rs::main", "main", "Function"),
        sym("b.rs::Widget", "Widget", "Struct"),
        sym("c.rs::Widget", "Widget", "Function"),
        sym("d.rs::Gadget", "Gadget", "Struct"),
    ];
    let calls = vec![
        RawCall { name: "Widget".to_string(), line: 5, is_method: false },
        RawCall { name: "Gadget".to_string(), line: 6, is_method: false },
    ];
    let edges = resolve_calls(&symbols, &[Some(calls), None, None, None], &[]);
    assert_eq!(
        edges,
        vec![
            ("a.rs::main".to_string(), "c.rs::Widget".to_string(), 5),
            ("a.rs::main".to_string(), "d.rs::Gadget".to_string(), 6),
        ]
    );
    let none = resolve_calls(&symbols, &[None, None, None, None], &[]);
    assert!(none.is_empty());
}

#[test]
fn ascii_table_lines_have_one_width() {
    let headers = vec!["Name".to_string(), "Kind".to_string()];
    let rows = vec![
        vec!["main".to_string(), "Function".to_string(), "dropped".to_string()],
        vec!["a_much_longer_name".to_string()],
    ];
    let table = format_ascii_table(&headers, &rows);
    let lines: Vec<&str> = table.lines().collect();
    assert_eq!(lines.len(), rows.len() + 4);
    // widths 18 and 8: 1 + (18 + 3) + (8 + 3)
    for l in &lines {
        assert_eq!(l.len(), 33, "{l}");
    }
    assert_eq!(lines[0], lines[2]);
    assert_eq!(lines[0], lines[lines.len() - 1]);
    assert!(!table.contains("dropped"));
}

#[test]
fn pending_paths_are_kept_once_per_path_not_per_text() {
    let mut st = WatchState::new();
    let paths = vec!["/w/src//a.rs".to_string(), "/w/src/a.rs".to_string(), "/w/./src/a.rs".to_string(), "/w/src/a.rs/".to_string()];
    assert!(matches!(st.step(WatchEvent::Changed { paths, access: false }, "synapse.lbug"), WatchAction::Continue));
    assert_eq!(st.pending, vec!["/w/src//a.rs".to_string()]);
}
