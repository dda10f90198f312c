use synapse::chunker::{chunk_source, chunk_source_with_options};
use synapse::dead_code::{is_dead_candidate, is_entry_point, DeadCodeOptions};
use synapse::file_utils::{detect_language, hash_content, slice_source_code};
use synapse::types::ast::NodeData;

#[test]
fn test_chunk_source() {
    let content = "fn hello() {\n    println!(\"Hello!\");\n}\n\nstruct World;\n";
    let nodes = vec![
        NodeData {
            id: "src/main.rs::hello".to_string(),
            name: "hello".to_string(),
            kind: "Function".to_string(),
            start_line: 1,
            start_col: 1,
            end_line: 3,
            signature: "fn hello()".to_string(),
        },
        NodeData {
            id: "src/main.rs::World".to_string(),
            name: "World".to_string(),
            kind: "Struct".to_string(),
            start_line: 5,
            start_col: 1,
            end_line: 5,
            signature: "struct World;".to_string(),
        },
    ];

    let chunks = chunk_source("src/main.rs", content, &nodes);
    assert_eq!(chunks.len(), 2);
    assert_eq!(chunks[0].symbol_id, Some("src/main.rs::hello".to_string()));
    assert_eq!(chunks[0].text, "fn hello() {\n    println!(\"Hello!\");\n}");
    assert_eq!(chunks[1].symbol_id, Some("src/main.rs::World".to_string()));
    assert_eq!(chunks[1].text, "struct World;");
}

#[test]
fn test_chunk_source_no_symbols() {
    let content = "line1\nline2\nline3\nline4\nline5\nline6\nline7\nline8\nline9\nline10";
    let chunks = chunk_source("src/utils.rs", content, &[]);
    assert_eq!(chunks.len(), 1);
    assert_eq!(chunks[0].symbol_id, None);
    assert_eq!(chunks[0].text, content);
}

#[test]
fn test_chunk_source_sliding_window() {
    let content = "line1\nline2\nline3\nline4\nline5\nline6\nline7\nline8\nline9\nline10";
    let chunks = chunk_source_with_options("src/utils.rs", content, &[], 4, 1);
    assert_eq!(chunks.len(), 3);
    assert_eq!(chunks[0].text, "line1\nline2\nline3\nline4");
    assert_eq!(chunks[1].text, "line4\nline5\nline6\nline7");
    assert_eq!(chunks[2].text, "line7\nline8\nline9\nline10");
}

#[test]
fn chunk_ids_count_from_zero() {
    let content = "a\nb\nc";
    let chunks = chunk_source_with_options("f.rs", content, &[], 2, 0);
    assert_eq!(chunks.len(), 2);
    assert_eq!(chunks[0].id, "f.rs::chunk::0");
    assert_eq!(chunks[1].id, "f.rs::chunk::1");
    assert_eq!(chunks[1].text, "c");
}

#[test]
fn test_slice_source_code() {
    let content = "line 1\nline 2\nline 3\nline 4\nline 5";
    let sliced = slice_source_code(content, 2, 4);
    assert_eq!(sliced, "line 2\nline 3\nline 4");
}

#[test]
fn test_slice_source_code_invalid_range() {
    let content = "line 1\nline 2\nline 3";
    assert_eq!(slice_source_code(content, 0, 2), "");
    assert_eq!(slice_source_code(content, 2, 0), "");
    assert_eq!(slice_source_code(content, 3, 2), "");
}

#[test]
fn test_slice_source_code_out_of_bounds() {
    let content = "line 1\nline 2";
    assert_eq!(slice_source_code(content, 5, 6), "");
    let sliced = slice_source_code(content, 1, 10);
    assert_eq!(sliced, "line 1\nline 2");
}

#[test]
fn hash_content_is_sha256_hex() {
    assert_eq!(
        hash_content(b"abc"),
        "ba7816bf8f01cfea414140de5dae2223b00361a396177a9cb410ff61f20015ad"
    );
    assert_eq!(
        hash_content(b""),
        "e3b0c44298fc1c149afbf4c8996fb92427ae41e4649b934ca495991b7852b855"
    );
}

#[test]
fn detect_language_by_extension() {
    assert_eq!(detect_language("src/main.rs"), "Rust");
    assert_eq!(detect_language("a/b.py"), "Python");
    assert_eq!(detect_language("x.tsx"), "TypeScript");
    assert_eq!(detect_language("Makefile"), "Unknown");
}

#[test]
fn test_is_entry_point() {
    assert!(is_entry_point("main"));
    assert!(is_entry_point("init"));
    assert!(is_entry_point("__init__"));
    assert!(is_entry_point("setup"));
    assert!(is_entry_point("teardown"));
    assert!(is_entry_point("setUp"));
    assert!(is_entry_point("tearDown"));
    assert!(is_entry_point("test_parse"));
    assert!(is_entry_point("parser_test"));
    assert!(is_entry_point("TestParse"));
    assert!(is_entry_point("test"));

    assert!(!is_entry_point("parse"));
    assert!(!is_entry_point("handle_request"));
    assert!(!is_entry_point("my_function"));
}

#[test]
fn dead_candidates_follow_kind_filter_and_callers() {
    let opts = DeadCodeOptions::default();
    assert!(is_dead_candidate("Function", "helper", false, &opts));
    assert!(!is_dead_candidate("Function", "helper", true, &opts));
    assert!(!is_dead_candidate("Struct", "Thing", false, &opts));
    assert!(!is_dead_candidate("Function", "main", false, &opts));
    assert_eq!(opts.top, Some(100));
}
