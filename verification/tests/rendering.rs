use synapse::query::repl::{repl_command, ReplCommand};
use synapse::query::format::QueryFormat;
use synapse::query::handler::{
    call_graph_heading, check_context_options, context_file_of, context_source, resolve_one_file,
    resolve_one_symbol, Direction,
};
use synapse::query::render::{caller_callee_markdown, context_markdown};
use synapse::types::query::{CallerInfo, ContextPayload, FileInfo, SymbolInfo};

fn sample_target() -> SymbolInfo {
    SymbolInfo {
        id: "src/main.rs::main".to_string(),
        name: "main".to_string(),
        kind: "Function".to_string(),
        start_line: 10,
        end_line: 15,
        signature: "fn main()".to_string(),
    }
}

fn sample_edges() -> Vec<CallerInfo> {
    vec![CallerInfo {
        id: "src/lib.rs::init".to_string(),
        name: "init".to_string(),
        kind: "Function".to_string(),
        signature: "fn init()".to_string(),
        call_site_line: 12,
    }]
}

#[test]
fn test_render_caller_callee_markdown() {
    let edges = sample_edges();
    let out = QueryFormat::Markdown.render_caller_callee_text(&edges, "Callers of `X`").unwrap();
    assert!(out.contains("# Callers of `X`"));
    assert!(out.contains("`src/lib.rs::init`"));
}

#[test]
fn test_render_caller_callee_table() {
    let edges = sample_edges();
    let out = QueryFormat::Table.render_caller_callee_text(&edges, "Callers of `X`").unwrap();
    assert!(out.contains("Symbol ID"));
    assert!(out.contains("src/lib.rs::init"));
}

#[test]
fn test_render_dependencies_all_formats() {
    let target = FileInfo { path: "src/main.rs".to_string(), language: "Rust".to_string() };
    let imports = vec!["src/lib.rs".to_string()];
    let imported_by = vec!["src/bin.rs".to_string()];

    assert!(QueryFormat::Json.render_dependencies_text(&target, &imports, &imported_by).is_none());

    let out = QueryFormat::Markdown.render_dependencies_text(&target, &imports, &imported_by).unwrap();
    assert!(out.contains("# Dependencies of `src/main.rs`"));
    assert!(out.contains("## Imports"));
    assert!(out.contains("## Imported By"));

    let out = QueryFormat::Table.render_dependencies_text(&target, &imports, &imported_by).unwrap();
    assert!(out.contains("File Path"));
    assert!(out.contains("Direction"));
}

#[test]
fn test_render_context_markdown() {
    let payload = ContextPayload {
        symbol: Some(sample_target()),
        file: None,
        source_code: "fn main() {}".to_string(),
        callers: sample_edges(),
        callees: vec![],
        imports: vec!["src/lib.rs".to_string()],
        imported_by: vec![],
        contained_symbols: vec![],
    };
    let out = QueryFormat::Markdown.render_context_text(&payload, Some("src/main.rs")).unwrap();
    assert!(out.contains("# Context: src/main.rs::main (Function)"));
    assert!(out.contains("## Signature"));
    assert!(out.contains("```rust"));
    assert!(out.contains("## Call Graph"));
    assert!(out.contains("### Callers"));
    assert!(out.contains("src/lib.rs::init"));
    assert!(out.contains("## File Dependencies"));
    assert!(out.contains("src/lib.rs"));
}

#[test]
fn context_markdown_exact_text() {
    let payload = ContextPayload {
        symbol: Some(sample_target()),
        file: None,
        source_code: "fn main() {}".to_string(),
        callers: sample_edges(),
        callees: vec![],
        imports: vec!["src/lib.rs".to_string()],
        imported_by: vec![],
        contained_symbols: vec![],
    };
    assert_eq!(
        context_markdown(&payload, Some("src/main.rs")),
        "# Context: src/main.rs::main (Function)\n\n## Signature\n`fn main()`\n\n## Source Code (src/main.rs:10-15)\n```rust\nfn main() {}\n```\n\n## Call Graph\n### Callers\n* `src/lib.rs::init` (kind: Function, line: 12)\n\n## File Dependencies (src/main.rs)\n### Imports\n* `src/lib.rs`\n"
    );
}

#[test]
fn context_table_falls_back_to_markdown() {
    let payload = ContextPayload {
        symbol: None,
        file: None,
        source_code: String::new(),
        callers: vec![],
        callees: vec![],
        imports: vec![],
        imported_by: vec![],
        contained_symbols: vec![],
    };
    let table = QueryFormat::Table.render_context_text(&payload, None);
    assert_eq!(table, QueryFormat::Markdown.render_context_text(&payload, None));
    assert!(table.is_some());
    assert_eq!(QueryFormat::Json.render_context_text(&payload, None), None);
}

#[test]
fn empty_call_graph_says_so() {
    assert_eq!(caller_callee_markdown(&[], "Callers of `X`"), "# Callers of `X`\n\nNo results found.\n");
}

fn symbols() -> Vec<SymbolInfo> {
    vec![
        sample_target(),
        SymbolInfo {
            id: "src/bin.rs::main".to_string(),
            name: "main".to_string(),
            kind: "Function".to_string(),
            start_line: 1,
            end_line: 2,
            signature: "fn main()".to_string(),
        },
    ]
}

#[test]
fn resolving_reports_ambiguity_and_absence() {
    let (s, warnings) = resolve_one_symbol("main", true, true, &symbols()).unwrap();
    assert_eq!(s.id, "src/main.rs::main");
    assert_eq!(
        warnings,
        vec![
            "Warning: Multiple matches found for symbol 'main':".to_string(),
            "  - src/main.rs::main".to_string(),
            "  - src/bin.rs::main".to_string(),
            "Showing details for the first match: src/main.rs::main".to_string(),
        ]
    );
    let (_, quiet) = resolve_one_symbol("main", true, false, &symbols()).unwrap();
    assert!(quiet.is_empty());
    assert_eq!(resolve_one_symbol("nope", true, true, &symbols()).unwrap_err(), "Symbol 'nope' not found");
    let files = vec![FileInfo { path: "src/main.rs".to_string(), language: "Rust".to_string() }];
    assert_eq!(resolve_one_file("MAIN", false, true, &files).unwrap().0.path, "src/main.rs");
    assert_eq!(resolve_one_file("x.rs", true, true, &files).unwrap_err(), "File 'x.rs' not found");
}

#[test]
fn context_option_checks() {
    assert_eq!(
        check_context_options(Some("main"), Some("main.rs")).unwrap_err(),
        "Options --symbol and --file are mutually exclusive"
    );
    assert_eq!(check_context_options(None, None).unwrap_err(), "Either --symbol or --file must be specified");
    assert!(check_context_options(Some("main"), None).is_ok());
    assert_eq!(context_file_of("src/main.rs::main"), "src/main.rs");
    assert_eq!(context_source(Some("a\nb\nc"), Some((2, 3))), "b\nc");
    assert_eq!(context_source(None, Some((2, 3))), "");
    assert_eq!(call_graph_heading(Direction::Callees, "a::b"), ("Callees of `a::b`".to_string(), "callees"));
}

#[test]
fn repl_lines_become_commands() {
    assert_eq!(repl_command(".exit"), ReplCommand::Exit);
    assert_eq!(repl_command("  .quit  "), ReplCommand::Exit);
    assert_eq!(repl_command("   "), ReplCommand::Nothing);
    match repl_command(".help") {
        ReplCommand::Print(t) => {
            assert!(t.contains("Synapse REPL Shortcuts:"));
            assert!(t.contains(".callers <symbol>"));
        },
        other => panic!("unexpected {:?}", other),
    }
    match repl_command(".invalid_cmd") {
        ReplCommand::Print(t) => assert!(t.contains("Error: Unknown shortcut command")),
        other => panic!("unexpected {:?}", other),
    }
    assert_eq!(repl_command(".callers  my   fn "), ReplCommand::Callers("my fn".to_string()));
    assert_eq!(
        repl_command(".deps"),
        ReplCommand::Print("Error: Missing target file. Usage: .deps <file>\n".to_string())
    );
    assert_eq!(repl_command("MATCH (n) RETURN n "), ReplCommand::Query("MATCH (n) RETURN n".to_string()));
}
