use synapse::resolver::{normalize_path, resolve_calls, resolve_imports};
use synapse::types::ast::{RawCall, RawImport};
use synapse::types::db::{FileRecord, SymbolRecord};

/// Reads stored import JSON as the indexer writes it: an array of
/// `{"path", "line"}` objects; anything else yields `None`.
fn parse_imports(text: &str) -> Option<Vec<RawImport>> {
    let value: serde_json::Value = serde_json::from_str(text).ok()?;
    let mut out = Vec::new();
    for item in value.as_array()? {
        let path = item.get("path")?.as_str()?.to_string();
        let line = item.get("line")?.as_u64()? as usize;
        out.push(RawImport { path, line });
    }
    Some(out)
}

/// Reads stored call JSON: an array of `{"name", "line", "is_method"}`.
fn parse_calls(text: &str) -> Option<Vec<RawCall>> {
    let value: serde_json::Value = serde_json::from_str(text).ok()?;
    let mut out = Vec::new();
    for item in value.as_array()? {
        let name = item.get("name")?.as_str()?.to_string();
        let line = item.get("line")?.as_u64()? as usize;
        let is_method = item.get("is_method")?.as_bool()?;
        out.push(RawCall { name, line, is_method });
    }
    Some(out)
}

fn file_record(path: &str, raw_imports: &str) -> FileRecord {
    FileRecord { path: path.to_string(), raw_imports: raw_imports.to_string() }
}

fn symbol_record(id: &str, name: &str, kind: &str, raw_calls: &str) -> SymbolRecord {
    SymbolRecord {
        id: id.to_string(),
        name: name.to_string(),
        kind: kind.to_string(),
        raw_calls: raw_calls.to_string(),
    }
}

fn link_imports(files: &[FileRecord]) -> Vec<(String, String)> {
    let parsed: Vec<Option<Vec<RawImport>>> = files.iter().map(|f| parse_imports(&f.raw_imports)).collect();
    resolve_imports(files, &parsed)
}

fn link_calls(symbols: &[SymbolRecord], import_edges: &[(String, String)]) -> Vec<(String, String, usize)> {
    let parsed: Vec<Option<Vec<RawCall>>> = symbols.iter().map(|s| parse_calls(&s.raw_calls)).collect();
    resolve_calls(symbols, &parsed, import_edges)
}

#[test]
fn rust_crate_import() {
    let files = vec![
        file_record("src/main.rs", r#"[{"path":"crate::parser","line":1}]"#),
        file_record("src/parser.rs", "[]"),
    ];
    let edges = link_imports(&files);
    assert!(edges.contains(&("src/main.rs".to_string(), "src/parser.rs".to_string())));
    assert_eq!(edges.len(), 1);
}

#[test]
fn rust_self_import() {
    let files = vec![
        file_record("src/main.rs", "[]"),
        file_record("src/parser.rs", r#"[{"path":"self::inner","line":1}]"#),
        file_record("src/inner.rs", "[]"),
    ];
    let edges = link_imports(&files);
    assert!(edges.contains(&("src/parser.rs".to_string(), "src/inner.rs".to_string())));
}

#[test]
fn rust_super_import() {
    let files = vec![
        file_record("src/mod.rs", "[]"),
        file_record("src/nested/child.rs", r#"[{"path":"super::mod","line":1}]"#),
    ];
    let edges = link_imports(&files);
    assert!(edges.contains(&("src/nested/child.rs".to_string(), "src/mod.rs".to_string())));
}

#[test]
fn js_relative_import() {
    let files = vec![
        file_record("src/app.ts", r#"[{"path":"./helper","line":1}]"#),
        file_record("src/helper.ts", "[]"),
    ];
    let edges = link_imports(&files);
    assert!(edges.contains(&("src/app.ts".to_string(), "src/helper.ts".to_string())));
}

#[test]
fn js_relative_index_import() {
    let files = vec![
        file_record("src/app.ts", r#"[{"path":"./utils","line":1}]"#),
        file_record("src/utils/index.ts", "[]"),
    ];
    let edges = link_imports(&files);
    assert!(edges.contains(&("src/app.ts".to_string(), "src/utils/index.ts".to_string())));
}

#[test]
fn jsx_resolution() {
    let files = vec![
        file_record("src/App.tsx", r#"[{"path":"./Button","line":1}]"#),
        file_record("src/Button.tsx", "[]"),
    ];
    let edges = link_imports(&files);
    assert!(edges.contains(&("src/App.tsx".to_string(), "src/Button.tsx".to_string())));
}

#[test]
fn no_match_returns_empty() {
    let files = vec![file_record(
        "src/main.rs",
        r#"[{"path":"crate::nonexistent","line":1}]"#,
    )];
    let edges = link_imports(&files);
    assert!(edges.is_empty());
}

#[test]
fn invalid_json_skipped() {
    let files = vec![file_record("src/main.rs", "not json")];
    let edges = link_imports(&files);
    assert!(edges.is_empty());
}

#[test]
fn rust_multi_segment_resolves_to_last_file() {
    let files = vec![
        file_record(
            "src/main.rs",
            r#"[{"path":"crate::foo::bar::Baz","line":1}]"#,
        ),
        file_record("src/foo.rs", "[]"),
        file_record("src/foo/bar.rs", "[]"),
    ];
    let edges = link_imports(&files);
    assert!(
        edges.contains(&("src/main.rs".to_string(), "src/foo/bar.rs".to_string())),
        "Should resolve to deepest module. Got: {:?}",
        edges
    );
    assert_eq!(edges.len(), 1);
}

#[test]
fn rust_multi_segment_with_mod_rs() {
    let files = vec![
        file_record(
            "src/main.rs",
            r#"[{"path":"crate::a::b::Item","line":1}]"#,
        ),
        file_record("src/a.rs", "[]"),
        file_record("src/a/b/mod.rs", "[]"),
    ];
    let edges = link_imports(&files);
    assert!(
        edges.contains(&("src/main.rs".to_string(), "src/a/b/mod.rs".to_string())),
        "mod.rs path. Got: {:?}",
        edges
    );
}

#[test]
fn rust_super_then_deep() {
    let files = vec![
        file_record(
            "src/nested/child.rs",
            r#"[{"path":"super::other::util::Util","line":1}]"#,
        ),
        file_record("src/other.rs", "[]"),
        file_record("src/other/util.rs", "[]"),
    ];
    let edges = link_imports(&files);
    assert!(
        edges.contains(&("src/nested/child.rs".to_string(), "src/other/util.rs".to_string())),
        "super then deep. Got: {:?}",
        edges
    );
}

#[test]
fn rust_single_segment_regression() {
    let files = vec![
        file_record("src/main.rs", r#"[{"path":"crate::parser","line":1}]"#),
        file_record("src/parser.rs", "[]"),
    ];
    let edges = link_imports(&files);
    assert!(edges.contains(&("src/main.rs".to_string(), "src/parser.rs".to_string())));
}

#[test]
fn file_scope_resolution() {
    let symbols = vec![
        symbol_record(
            "src/main.rs::main",
            "main",
            "Function",
            r#"[{"name":"helper","line":5,"is_method":false}]"#,
        ),
        symbol_record("src/main.rs::helper", "helper", "Function", "[]"),
    ];
    let edges = link_calls(&symbols, &[]);
    assert!(edges.contains(&(
        "src/main.rs::main".to_string(),
        "src/main.rs::helper".to_string(),
        5usize
    )));
}

#[test]
fn import_scope_resolution() {
    let symbols = vec![
        symbol_record(
            "src/main.rs::main",
            "main",
            "Function",
            r#"[{"name":"parse","line":10,"is_method":false}]"#,
        ),
        symbol_record("src/parser.rs::parse", "parse", "Function", "[]"),
    ];
    let import_edges = vec![("src/main.rs".to_string(), "src/parser.rs".to_string())];
    let edges = link_calls(&symbols, &import_edges);
    assert!(edges.contains(&(
        "src/main.rs::main".to_string(),
        "src/parser.rs::parse".to_string(),
        10usize
    )));
}

#[test]
fn method_call_step1() {
    let symbols = vec![
        symbol_record(
            "src/lib.rs::MyStruct::do_work",
            "do_work",
            "Method",
            r#"[{"name":"helper","line":3,"is_method":true}]"#,
        ),
        symbol_record("src/lib.rs::MyStruct::helper", "helper", "Method", "[]"),
    ];
    let edges = link_calls(&symbols, &[]);
    assert!(edges.contains(&(
        "src/lib.rs::MyStruct::do_work".to_string(),
        "src/lib.rs::MyStruct::helper".to_string(),
        3usize
    )));
}

#[test]
fn global_fallback() {
    let symbols = vec![
        symbol_record(
            "src/main.rs::main",
            "main",
            "Function",
            r#"[{"name":"parse_file","line":7,"is_method":false}]"#,
        ),
        symbol_record("src/parser.rs::parse_file", "parse_file", "Function", "[]"),
    ];
    // No import edge — should still resolve via global fallback
    let edges = link_calls(&symbols, &[]);
    assert!(edges.iter().any(|(from, to, _line)| {
        from == "src/main.rs::main" && to == "src/parser.rs::parse_file"
    }));
}

#[test]
fn unknown_call_returns_empty() {
    let symbols = vec![symbol_record(
        "src/main.rs::main",
        "main",
        "Function",
        r#":[{"name":"does_not_exist","line":1,"is_method":false}]"#,
    )];
    let edges = link_calls(&symbols, &[]);
    assert!(edges.is_empty());
}

#[test]
fn invalid_calls_json_skipped() {
    let symbols = vec![symbol_record(
        "src/main.rs::main",
        "main",
        "Function",
        "bad json",
    )];
    let edges = link_calls(&symbols, &[]);
    assert!(edges.is_empty());
}

#[test]
fn normalize_resolves_dots() {
    assert_eq!(normalize_path("src/nested/../other/./util.rs"), "src/other/util.rs");
    assert_eq!(normalize_path("/a/b/.."), "/a");
}

#[test]
fn duplicate_imports_give_one_edge() {
    let files = vec![
        file_record(
            "src/main.rs",
            r#"[{"path":"crate::parser","line":1},{"path":"crate::parser::Thing","line":2}]"#,
        ),
        file_record("src/parser.rs", "[]"),
    ];
    let edges = link_imports(&files);
    assert_eq!(edges, vec![("src/main.rs".to_string(), "src/parser.rs".to_string())]);
}

#[test]
fn global_fallback_prefers_functions() {
    let symbols = vec![
        symbol_record("src/a.rs::run", "run", "Function", r#"[{"name":"Thing","line":4,"is_method":false}]"#),
        symbol_record("src/b.rs::Thing", "Thing", "Struct", "[]"),
        symbol_record("src/c.rs::Thing", "Thing", "Function", "[]"),
    ];
    let edges = link_calls(&symbols, &[]);
    assert_eq!(edges, vec![("src/a.rs::run".to_string(), "src/c.rs::Thing".to_string(), 4)]);
}
