use synapse::index::{calls_in_span, edge_from_file, is_db_file};
use synapse::post_index::{on_failure, FailureAction, PostIndexMode, PostIndexPhase};
use synapse::processor::{file_payload, is_unchanged, should_read_text};
use synapse::schema::{is_existing_table_error, schema_ddls};
use synapse::types::ast::{EdgeData, RawCall};
use synapse::watch::{should_watch, WatchAction, WatchEvent, WatchState};

#[test]
fn test_should_watch_supported_extension_rs() {
    assert!(should_watch("/tmp/test.rs", "synapse.lbug"));
}

#[test]
fn test_should_watch_supported_extensions() {
    let exts = [
        "rs", "js", "jsx", "ts", "tsx", "go", "py", "c", "cc", "cpp", "cxx", "h", "hpp", "java", "kt", "kts",
        "rb", "php", "swift",
    ];
    for ext in &exts {
        let filename = format!("/tmp/test.{}", ext);
        assert!(should_watch(&filename, "synapse.lbug"), "expected {} to be watched", ext);
    }
}

#[test]
fn test_should_watch_unsupported_extension() {
    assert!(!should_watch("/tmp/test.txt", "synapse.lbug"));
}

#[test]
fn test_should_watch_no_extension() {
    assert!(!should_watch("/tmp/Makefile", "synapse.lbug"));
}

#[test]
fn test_should_watch_skips_db_file() {
    assert!(!should_watch("/tmp/synapse.lbug", "synapse.lbug"));
}

#[test]
fn test_should_watch_skips_db_companions() {
    assert!(!should_watch("/tmp/synapse.lbug.wal", "synapse.lbug"));
}

#[test]
fn test_should_watch_non_absolute_path() {
    assert!(!should_watch("test.rs", "synapse.lbug"));
}

#[test]
fn test_should_watch_absolute_path_supported_ext() {
    assert!(should_watch("/home/user/project/src/main.rs", "synapse.lbug"));
}

#[test]
fn watcher_batches_after_debounce() {
    let mut st = WatchState::new();
    let ev = WatchEvent::Changed { paths: vec!["/p/a.rs".to_string(), "/p/a.rs".to_string(), "/p/b.txt".to_string()], access: false };
    assert!(matches!(st.step(ev, "synapse.lbug"), WatchAction::Continue));
    assert_eq!(st.pending, vec!["/p/a.rs".to_string()]);
    let access = WatchEvent::Changed { paths: vec!["/p/c.rs".to_string()], access: true };
    assert!(matches!(st.step(access, "synapse.lbug"), WatchAction::Continue));
    assert_eq!(st.pending.len(), 1);
    assert!(matches!(st.step(WatchEvent::Idle, "synapse.lbug"), WatchAction::Debounce));
    let more = WatchEvent::Changed { paths: vec!["/p/d.py".to_string()], access: false };
    st.step(more, "synapse.lbug");
    match st.step(WatchEvent::Idle, "synapse.lbug") {
        WatchAction::Process { number, paths } => {
            assert_eq!(number, 1);
            let mut paths = paths;
            paths.sort();
            assert_eq!(paths, vec!["/p/a.rs".to_string(), "/p/d.py".to_string()]);
        },
        _ => panic!("expected a batch"),
    }
    assert!(st.pending.is_empty());
    assert!(matches!(st.step(WatchEvent::Idle, "synapse.lbug"), WatchAction::Continue));
    match st.step(WatchEvent::Failed("boom".to_string()), "synapse.lbug") {
        WatchAction::Warn(m) => assert_eq!(m, "Warning: File watcher error: boom"),
        _ => panic!("expected a warning"),
    }
    assert!(matches!(st.step(WatchEvent::Closed, "synapse.lbug"), WatchAction::Stop));
}

#[test]
fn database_files_are_recognised() {
    assert!(is_db_file("/w/synapse.lbug", "/w/synapse.lbug"));
    assert!(is_db_file("/w/synapse.lbug.wal", "/w/synapse.lbug"));
    assert!(!is_db_file("/w/synapse.lbugx", "/w/synapse.lbug"));
    assert!(!is_db_file("/w/src/main.rs", "/w/synapse.lbug"));
}

#[test]
fn calls_are_assigned_by_line_span() {
    let calls = vec![
        RawCall { name: "a".to_string(), line: 2, is_method: false },
        RawCall { name: "b".to_string(), line: 5, is_method: true },
        RawCall { name: "c".to_string(), line: 9, is_method: false },
    ];
    let inside = calls_in_span(&calls, 2, 5);
    assert_eq!(inside, vec![calls[0].clone(), calls[1].clone()]);
    let edge = EdgeData { from_id: "src/a.rs".to_string(), to_id: "src/a.rs::f".to_string(), edge_type: "CONTAINS".to_string() };
    assert!(edge_from_file(&edge, "src/a.rs"));
    assert!(!edge_from_file(&edge, "src/b.rs"));
}

#[test]
fn payloads_follow_size_and_text() {
    assert!(is_unchanged(Some("h"), "h"));
    assert!(!is_unchanged(Some("h"), "g"));
    assert!(!is_unchanged(None, "h"));
    let p = file_payload("main.go".to_string(), "Go".to_string(), 40, "h".to_string(), Some("package main\n\nfunc Add(a, b int) int { return a + b }\n".to_string()));
    let a = p.analysis.unwrap();
    assert!(a.nodes.iter().any(|n| n.name == "Add" && n.kind == "Function"));
    assert!(p.content.is_some());
    let big = file_payload("big.rs".to_string(), "Rust".to_string(), 6 * 1024 * 1024, "h".to_string(), Some("fn f() {}".to_string()));
    assert!(big.analysis.is_none() && big.content.is_none());
    let unread = file_payload("notes.txt".to_string(), "Unknown".to_string(), 3, "h".to_string(), None);
    assert!(unread.analysis.is_none() && unread.content.is_none());
    assert_eq!(unread.relative_path, "notes.txt");
}

#[test]
fn schema_and_failure_policy() {
    let ddls = schema_ddls();
    assert_eq!(ddls.len(), 7);
    assert!(ddls[1].contains("pagerank DOUBLE"));
    assert!(is_existing_table_error("Binder exception: Table File ALREADY EXISTS"));
    assert!(is_existing_table_error("duplicate key"));
    assert!(!is_existing_table_error("syntax error"));
    assert_eq!(on_failure(PostIndexMode::FailFast, PostIndexPhase::Link), FailureAction::Propagate);
    assert_eq!(on_failure(PostIndexMode::Resilient, PostIndexPhase::Link), FailureAction::Warn);
    assert_eq!(on_failure(PostIndexMode::Resilient, PostIndexPhase::OpenDatabase), FailureAction::Skip);
    assert_eq!(on_failure(PostIndexMode::FailFast, PostIndexPhase::Rank), FailureAction::Warn);
}

#[test]
fn text_is_read_only_for_parseable_files_within_the_limit() {
    assert!(should_read_text(10, "/repo/src/main.rs"));
    assert!(should_read_text(5 * 1024 * 1024, "/repo/app.py"));
    assert!(!should_read_text(5 * 1024 * 1024 + 1, "/repo/app.py"));
    assert!(!should_read_text(10, "/repo/README.md"));
    assert!(!should_read_text(10, "/repo/Makefile"));
}
