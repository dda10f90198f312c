use serde_json::Value;
use synapse::mcp::errors::{map_domain_error, AmbiguousMarker, CandidateError, DomainError, ErrorCode};
use synapse::mcp::repo_registry::{RegistryError, RepoEntry, RepoRegistry};
use synapse::mcp::tool_impls::{missing_db_error, no_repo_error, registered_db_path, registry_load_error};
use synapse::mcp::tools::McpToolError;

const C1: &str = r#"{"name":"parse","file":"src/parser.rs","line":10}"#;
const C2: &str = r#"{"name":"parse","file":"src/ast.rs","line":42}"#;

fn json(s: &str) -> Value {
    serde_json::from_str(s).expect("valid JSON")
}

#[test]
fn candidate_no_match_maps_to_invalid_params() {
    let mapped = map_domain_error(&DomainError::Candidate(CandidateError::NoMatch("foo".to_string())), None);
    assert_eq!(mapped.code, ErrorCode::InvalidParams);
    assert_eq!(mapped.message, "no symbol matches 'foo'");
    assert!(mapped.candidates.is_none());
}

#[test]
fn candidate_ambiguous_maps_to_invalid_params_with_candidates_in_data() {
    let err = DomainError::Candidate(CandidateError::Ambiguous("parse".to_string(), vec![C1.to_string(), C2.to_string()]));
    let mapped = map_domain_error(&err, None);
    assert_eq!(mapped.code, ErrorCode::InvalidParams);
    assert_eq!(mapped.message, "'parse' matches multiple candidates");
    let data = mapped.candidates.expect("data should be set for ambiguous");
    assert_eq!(json(&data), json(&format!("[{C1},{C2}]")));
}

#[test]
fn tool_invalid_params_maps_with_prefix() {
    let err = DomainError::Tool(McpToolError::InvalidParams("missing field 'name'".to_string()));
    let mapped = map_domain_error(&err, None);
    assert_eq!(mapped.code, ErrorCode::InvalidParams);
    assert_eq!(mapped.message, "invalid parameters: missing field 'name'");
}

#[test]
fn tool_internal_maps_to_internal_error_code() {
    let err = DomainError::Tool(McpToolError::Internal("database corruption".to_string()));
    let mapped = map_domain_error(&err, None);
    assert_eq!(mapped.code, ErrorCode::InternalError);
    assert_eq!(mapped.message, "internal error: database corruption");
}

#[test]
fn tool_invalid_params_ambiguous_marker_re_emits_candidates() {
    let marker_text = format!(r#"{{"__synapse_ambiguous__":true,"name":"parse","candidates":[{C1},{C2}]}}"#);
    // what the server parses out of the marker message
    let parsed = json(&marker_text);
    let marker = AmbiguousMarker {
        name: parsed["name"].as_str().unwrap_or("").to_string(),
        candidates: parsed["candidates"].to_string(),
    };
    let err = DomainError::Tool(McpToolError::InvalidParams(marker_text));
    let mapped = map_domain_error(&err, Some(&marker));
    assert_eq!(mapped.code, ErrorCode::InvalidParams);
    assert_eq!(mapped.message, "'parse' matches multiple candidates");
    let data = mapped.candidates.expect("data should be set for ambiguous marker");
    assert_eq!(json(&data), json(&format!("[{C1},{C2}]")));
}

#[test]
fn tool_not_found_is_invalid_params() {
    let mapped = map_domain_error(&DomainError::Tool(McpToolError::NotFound("repo 'x'".to_string())), None);
    assert_eq!(mapped.code, ErrorCode::InvalidParams);
    assert_eq!(mapped.message, "not found: repo 'x'");
}

#[test]
fn registry_errors_map_by_kind() {
    let dup = RegistryError::DuplicatePath { path: "/r".to_string(), existing_name: "foo".to_string() };
    let mapped = map_domain_error(&DomainError::Registry(dup), None);
    assert_eq!(mapped.code, ErrorCode::InvalidParams);
    assert_eq!(mapped.message, "repo already registered as 'foo'");

    let name = RegistryError::DuplicateName { name: "foo".to_string(), existing_path: "/r".to_string() };
    let mapped = map_domain_error(&DomainError::Registry(name), None);
    assert_eq!(mapped.message, "repo name already used by '/r'");

    let mapped = map_domain_error(&DomainError::Registry(RegistryError::NoHome), None);
    assert_eq!(mapped.code, ErrorCode::InvalidParams);
    assert_eq!(mapped.message, "HOME is unset; cannot locate ~/.synapse/repos.json");

    let mapped = map_domain_error(&DomainError::Registry(RegistryError::Io("disk full".to_string())), None);
    assert_eq!(mapped.code, ErrorCode::InternalError);
    assert_eq!(mapped.message, "registry error: registry I/O: disk full");
}

#[test]
fn other_errors_about_embeddings_ask_to_embed() {
    let mapped = map_domain_error(&DomainError::Other("embedding table not found".to_string()), None);
    assert_eq!(mapped.code, ErrorCode::InvalidParams);
    assert_eq!(mapped.message, "run 'synapse embed' to populate embeddings");
    let mapped = map_domain_error(&DomainError::Other("boom".to_string()), None);
    assert_eq!(mapped.code, ErrorCode::InternalError);
    assert_eq!(mapped.message, "internal error: boom");
}

fn entry(name: &str, path: &str, db: &str) -> RepoEntry {
    RepoEntry {
        name: name.to_string(),
        path: path.to_string(),
        db_path: db.to_string(),
        indexed_at: "2026-06-21T00:00:00Z".to_string(),
        indexed_commit: String::new(),
    }
}

#[test]
fn registered_db_path_finds_the_named_repo() {
    let mut registry = RepoRegistry::default();
    registry.add_or_update(entry("one", "/a", "/a/synapse.lbug"), false).unwrap();
    registry.add_or_update(entry("two", "/b", "/b/synapse.lbug"), false).unwrap();
    assert_eq!(registered_db_path(&registry, "two").unwrap(), "/b/synapse.lbug");
    assert_eq!(registered_db_path(&registry, "one").unwrap(), "/a/synapse.lbug");
    match registered_db_path(&registry, "three") {
        Err(McpToolError::NotFound(m)) => {
            assert_eq!(m, "repo 'three' not found in registry; see synapse://repos for available repos")
        },
        other => panic!("unexpected {other:?}"),
    }
}

#[test]
fn repo_lookup_error_messages() {
    match missing_db_error("/x/synapse.lbug", "x") {
        McpToolError::InvalidParams(m) => {
            assert_eq!(m, "db file '/x/synapse.lbug' not found for repo 'x' (run `synapse index` to re-create)")
        },
        other => panic!("unexpected {other:?}"),
    }
    match no_repo_error() {
        McpToolError::InvalidParams(m) => assert!(m.starts_with("no repo specified")),
        other => panic!("unexpected {other:?}"),
    }
    match registry_load_error(&RegistryError::NoHome) {
        McpToolError::Internal(m) => assert_eq!(m, "HOME is unset; cannot read ~/.synapse/repos.json"),
        other => panic!("unexpected {other:?}"),
    }
    match registry_load_error(&RegistryError::Json("bad".to_string())) {
        McpToolError::Internal(m) => assert_eq!(m, "registry load failed: registry JSON: bad"),
        other => panic!("unexpected {other:?}"),
    }
}
