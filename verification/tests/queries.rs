use synapse::mcp::repo_registry::{RegistryError, RepoEntry, RepoRegistry};
use synapse::mcp::tool_impls::{
    classify_query_error, CalleesTool, CallersTool, ContextTool, CypherTool, DepsTool, ImpactTool,
    QueryTool, RankTool,
};
use synapse::mcp::tools::McpToolError;
use synapse::query::candidates;
use synapse::query::format::{escape_cell, QueryFormat};
use synapse::query_cli;
use synapse::types::query::SymbolInfo;

fn table_inputs() -> (Vec<String>, Vec<Vec<String>>) {
    let headers = vec!["ID".to_string(), "NAME".to_string(), "VAL".to_string()];
    let rows = vec![
        vec!["1".to_string(), "Alice".to_string(), "10.5".to_string()],
        vec!["20".to_string(), "Bob".to_string(), "true".to_string()],
    ];
    (headers, rows)
}

const EXPECTED_TABLE: &str = "+----+-------+------+\n\
                              | ID | NAME  | VAL  |\n\
                              +----+-------+------+\n\
                              | 1  | Alice | 10.5 |\n\
                              | 20 | Bob   | true |\n\
                              +----+-------+------+";

#[test]
fn query_cli_test_format_table_rendering() {
    let (headers, rows) = table_inputs();
    let formatted = query_cli::format_ascii_table(&headers, &rows);
    assert_eq!(formatted.trim(), EXPECTED_TABLE);
}

#[test]
fn format_test_format_table_rendering() {
    let (headers, rows) = table_inputs();
    let formatted = synapse::query::format::format_ascii_table(&headers, &rows);
    assert_eq!(formatted.trim(), EXPECTED_TABLE);
}

#[test]
fn table_with_no_rows_has_header_only() {
    let headers = vec!["A".to_string()];
    let rows: Vec<Vec<String>> = vec![];
    assert_eq!(synapse::query::format::format_ascii_table(&headers, &rows), "+---+\n| A |\n+---+\n+---+");
}

fn cli_symbols() -> Vec<query_cli::SymbolInfo> {
    vec![
        query_cli::SymbolInfo {
            id: "src/main.rs::main".to_string(),
            name: "main".to_string(),
            kind: "Function".to_string(),
            start_line: 1,
            end_line: 5,
            signature: "fn main()".to_string(),
        },
        query_cli::SymbolInfo {
            id: "src/linker.rs::run_linker".to_string(),
            name: "run_linker".to_string(),
            kind: "Function".to_string(),
            start_line: 10,
            end_line: 20,
            signature: "fn run_linker()".to_string(),
        },
    ]
}

fn symbols() -> Vec<SymbolInfo> {
    vec![
        SymbolInfo {
            id: "src/main.rs::main".to_string(),
            name: "main".to_string(),
            kind: "Function".to_string(),
            start_line: 1,
            end_line: 5,
            signature: "fn main()".to_string(),
        },
        SymbolInfo {
            id: "src/linker.rs::run_linker".to_string(),
            name: "run_linker".to_string(),
            kind: "Function".to_string(),
            start_line: 10,
            end_line: 20,
            signature: "fn run_linker()".to_string(),
        },
    ]
}

#[test]
fn query_cli_test_fuzzy_filtering() {
    let symbols = cli_symbols();
    let matches = query_cli::resolve_symbol_candidates("run_linker", false, &symbols);
    assert_eq!(matches.len(), 1);
    assert_eq!(matches[0].id, "src/linker.rs::run_linker");

    let matches_fuzzy = query_cli::resolve_symbol_candidates("LINK", true, &symbols);
    assert_eq!(matches_fuzzy.len(), 1);
    assert_eq!(matches_fuzzy[0].id, "src/linker.rs::run_linker");
}

#[test]
fn candidates_test_fuzzy_filtering() {
    let symbols = symbols();
    let matches = candidates::resolve_symbol_candidates("run_linker", false, &symbols);
    assert_eq!(matches.len(), 1);
    assert_eq!(matches[0].id, "src/linker.rs::run_linker");

    let matches_fuzzy = candidates::resolve_symbol_candidates("LINK", true, &symbols);
    assert_eq!(matches_fuzzy.len(), 1);
    assert_eq!(matches_fuzzy[0].id, "src/linker.rs::run_linker");

    let matches_id = candidates::resolve_symbol_candidates("src/linker.rs::run_linker", false, &symbols);
    assert_eq!(matches_id.len(), 1);
    assert_eq!(matches_id[0].id, "src/linker.rs::run_linker");

    let matches_id_fuzzy = candidates::resolve_symbol_candidates("linker.rs::run", true, &symbols);
    assert_eq!(matches_id_fuzzy.len(), 1);
    assert_eq!(matches_id_fuzzy[0].id, "src/linker.rs::run_linker");
}

#[test]
fn test_source_line_slicing() {
    let file_content = "line 1\nline 2\nline 3\nline 4\nline 5";
    let sliced = query_cli::slice_source_code(file_content, 2, 4);
    assert_eq!(sliced, "line 2\nline 3\nline 4");
}

#[test]
fn test_query_format_parse() {
    assert_eq!(QueryFormat::parse("table").unwrap(), QueryFormat::Table);
    assert_eq!(QueryFormat::parse("markdown").unwrap(), QueryFormat::Markdown);
    assert_eq!(QueryFormat::parse("json").unwrap(), QueryFormat::Json);
    let err = QueryFormat::parse("html").unwrap_err();
    assert_eq!(err.to_string(), "Invalid format 'html'. Supported: table, markdown, json");
}

#[test]
fn test_query_format_parse_for_context() {
    assert_eq!(QueryFormat::parse_for_context("markdown").unwrap(), QueryFormat::Markdown);
    assert_eq!(QueryFormat::parse_for_context("json").unwrap(), QueryFormat::Json);
    let err = QueryFormat::parse_for_context("table").unwrap_err();
    assert_eq!(
        err.to_string(),
        "Invalid output format 'table'. Supported formats are: markdown, json"
    );
}

#[test]
fn syntax_names_follow_extension() {
    assert_eq!(synapse::query::format::syntax_for_path("src/main.rs"), "rust");
    assert_eq!(synapse::query::format::syntax_for_path("a.tsx"), "typescript");
    assert_eq!(synapse::query::format::syntax_for_path("a.py"), "text");
}

#[test]
fn cypher_tool_metadata() {
    let t = CypherTool;
    assert_eq!(t.name(), "synapse_cypher");
    assert!(t.description().contains("Cypher"));
}

#[test]
fn callers_tool_metadata() {
    let t = CallersTool;
    assert_eq!(t.name(), "synapse_callers");
    assert!(t.description().contains("callers"));
}

#[test]
fn callees_tool_metadata() {
    let t = CalleesTool;
    assert_eq!(t.name(), "synapse_callees");
    assert!(t.description().contains("callees"));
}

#[test]
fn deps_tool_metadata() {
    let t = DepsTool;
    assert_eq!(t.name(), "synapse_deps");
    assert!(t.description().contains("imports"));
}

#[test]
fn context_tool_metadata() {
    let t = ContextTool;
    assert_eq!(t.name(), "synapse_context");
    assert!(t.description().contains("intelligence"));
}

#[test]
fn query_tool_metadata() {
    let t = QueryTool;
    assert_eq!(t.name(), "synapse_query");
    assert!(t.description().contains("Semantic"));
}

#[test]
fn impact_tool_metadata() {
    let t = ImpactTool;
    assert_eq!(t.name(), "synapse_impact");
    assert!(t.description().contains("PageRank") || t.description().contains("transitively"));
}

#[test]
fn rank_tool_metadata() {
    let t = RankTool;
    assert_eq!(t.name(), "synapse_rank");
    assert!(t.description().contains("PageRank"));
}

#[test]
fn classify_query_error_ambiguous_maps_to_invalid_params() {
    let mapped = classify_query_error("matches multiple candidates");
    assert!(matches!(mapped, McpToolError::InvalidParams(_)));
}

#[test]
fn classify_query_error_no_match_maps_to_not_found() {
    let mapped = classify_query_error("No symbol matches 'foo'");
    assert!(matches!(mapped, McpToolError::NotFound(_)));
}

#[test]
fn classify_query_error_other_maps_to_internal() {
    let mapped = classify_query_error("unexpected db error");
    assert!(matches!(mapped, McpToolError::Internal(_)));
}

#[test]
fn tool_error_messages_carry_their_kind() {
    assert_eq!(
        McpToolError::InvalidParams("missing field 'name'".to_string()).message(),
        "invalid parameters: missing field 'name'"
    );
    assert_eq!(
        McpToolError::Internal("database corruption".to_string()).message(),
        "internal error: database corruption"
    );
}

fn entry(name: &str, path: &str, at: &str, commit: &str) -> RepoEntry {
    RepoEntry {
        name: name.to_string(),
        path: path.to_string(),
        db_path: format!("{}/synapse.lbug", path),
        indexed_at: at.to_string(),
        indexed_commit: commit.to_string(),
    }
}

#[test]
fn add_or_update_preserves_name_on_re_add_with_force() {
    let mut registry = RepoRegistry::default();
    registry.add_or_update(entry("foo", "/repo", "2026-06-17T08:30:00Z", "abc"), false).unwrap();
    registry.add_or_update(entry("bar", "/repo", "2026-06-17T09:00:00Z", "def"), true).unwrap();

    assert_eq!(registry.entries.len(), 1);
    let entry = &registry.entries[0];
    assert_eq!(entry.name, "foo");
    assert_eq!(entry.indexed_at, "2026-06-17T09:00:00Z");
    assert_eq!(entry.indexed_commit, "def");
}

#[test]
fn add_or_update_rejects_duplicate_path_without_force() {
    let mut registry = RepoRegistry::default();
    registry.add_or_update(entry("foo", "/repo", "2026-06-17T08:30:00Z", "abc"), false).unwrap();
    let err = registry
        .add_or_update(entry("bar", "/repo", "2026-06-17T09:00:00Z", "def"), false)
        .unwrap_err();
    assert!(
        matches!(err, RegistryError::DuplicatePath { ref existing_name, .. } if existing_name == "foo"),
        "expected DuplicatePath with existing_name=foo, got {err:?}"
    );
}

#[test]
fn add_or_update_rejects_taken_name_at_new_path() {
    let mut registry = RepoRegistry::default();
    registry.add_or_update(entry("foo", "/repo", "t", "abc"), false).unwrap();
    let err = registry.add_or_update(entry("foo", "/other", "t", "abc"), false).unwrap_err();
    assert!(matches!(err, RegistryError::DuplicateName { ref existing_path, .. } if existing_path == "/repo"));
    assert_eq!(registry.entries.len(), 1);
}

#[test]
fn registry_finds_added_entries() {
    let mut registry = RepoRegistry::default();
    registry.add_or_update(entry("foo", "/repo", "t", "abc"), false).unwrap();
    registry.add_or_update(entry("bar", "/other", "t", "abc"), false).unwrap();
    assert_eq!(registry.find_by_name("bar").unwrap().path, "/other");
    assert_eq!(registry.find_by_path("/repo").unwrap().name, "foo");
    assert_eq!(registry.find_by_path("/repo/").unwrap().name, "foo");
    assert!(registry.find_by_name("baz").is_none());
}

#[test]
fn cells_keep_to_one_line() {
    assert_eq!(escape_cell("a\nb\r\nc"), "a\\nb\\r\\nc");
    assert_eq!(escape_cell("plain"), "plain");
    assert_eq!(escape_cell(""), "");
}
