use synapse::parser::rust::expand_rust_import;
use synapse::parser::{language_from_path, ASTParser, MAX_PARSE_BYTES, PARSE_TIMEOUT_MICROS};
use synapse::types::ast::{EdgeData, FileAnalysis, NodeData};

fn node_by_id<'a>(nodes: &'a [NodeData], id: &str) -> &'a NodeData {
    nodes.iter().find(|n| n.id == id).unwrap_or_else(|| panic!("node '{id}' not found"))
}

fn edge_by_endpoints<'a>(edges: &'a [EdgeData], from: &str, to: &str) -> &'a EdgeData {
    edges
        .iter()
        .find(|e| e.from_id == from && e.to_id == to)
        .unwrap_or_else(|| panic!("edge '{from}'->'{to}' not found"))
}

fn check_rust_declarations() {
    let code = r#"
            enum MyEnum {
                Variant,
            }
            trait MyTrait {
                fn trait_func() {}
            }
            struct MyStruct {
                x: i32,
            }
            impl MyStruct {
                #[inline]
                fn run() {}
            }
            impl MyTrait for MyStruct {
                fn trait_func() {}
            }
        "#;
    let FileAnalysis { nodes, edges, .. } = ASTParser::parse_file("test.rs", code);

    assert!(!nodes.is_empty(), "Nodes should not be empty");
    let node_names: Vec<&str> = nodes.iter().map(|n| n.name.as_str()).collect();
    let node_kinds: Vec<&str> = nodes.iter().map(|n| n.kind.as_str()).collect();
    assert_eq!(
        node_names,
        vec![
            "MyEnum",
            "MyTrait",
            "trait_func",
            "MyStruct",
            "impl MyStruct",
            "run",
            "impl MyTrait for MyStruct",
            "trait_func"
        ]
    );
    assert_eq!(
        node_kinds,
        vec![
            "Enum",
            "Interface",
            "Function",
            "Struct",
            "Implementation",
            "Function",
            "Implementation",
            "Function"
        ]
    );
    assert_eq!(node_by_id(&nodes, "test.rs::MyEnum").kind, "Enum");
    assert_eq!(node_by_id(&nodes, "test.rs::MyTrait").kind, "Interface");
    assert_eq!(node_by_id(&nodes, "test.rs::MyTrait::trait_func").kind, "Function");
    assert_eq!(node_by_id(&nodes, "test.rs::MyStruct").kind, "Struct");
    assert_eq!(node_by_id(&nodes, "test.rs::impl MyStruct").kind, "Implementation");
    assert_eq!(node_by_id(&nodes, "test.rs::impl MyStruct::run").kind, "Function");
    assert_eq!(node_by_id(&nodes, "test.rs::impl MyTrait for MyStruct").kind, "Implementation");
    assert_eq!(
        node_by_id(&nodes, "test.rs::impl MyTrait for MyStruct::trait_func").kind,
        "Function"
    );

    assert_eq!(edges.len(), 8);
    assert_eq!(edge_by_endpoints(&edges, "test.rs", "test.rs::MyEnum").edge_type, "CONTAINS");
    edge_by_endpoints(&edges, "test.rs", "test.rs::MyTrait");
    edge_by_endpoints(&edges, "test.rs::MyTrait", "test.rs::MyTrait::trait_func");
    edge_by_endpoints(&edges, "test.rs", "test.rs::MyStruct");
    edge_by_endpoints(&edges, "test.rs", "test.rs::impl MyStruct");
    edge_by_endpoints(&edges, "test.rs::impl MyStruct", "test.rs::impl MyStruct::run");
    edge_by_endpoints(&edges, "test.rs", "test.rs::impl MyTrait for MyStruct");
    edge_by_endpoints(
        &edges,
        "test.rs::impl MyTrait for MyStruct",
        "test.rs::impl MyTrait for MyStruct::trait_func",
    );
}

fn check_rust_parsing() {
    let code = r#"
            pub use crate::db::Connection;
            pub(crate) use std::path::Path;

            fn call_helper() {
                do_something();
            }

            struct Runner;
            impl Runner {
                fn run(&self) {
                    self.execute();
                }
            }
        "#;
    let analysis = ASTParser::parse_file("test.rs", code);

    assert_eq!(analysis.imports.len(), 2);
    assert_eq!(analysis.imports[0].path, "crate::db::Connection");
    assert_eq!(analysis.imports[1].path, "std::path::Path");

    assert_eq!(analysis.calls.len(), 2);
    assert_eq!(analysis.calls[0].name, "do_something");
    assert!(!analysis.calls[0].is_method);
    assert_eq!(analysis.calls[1].name, "execute");
    assert!(analysis.calls[1].is_method);
}

fn check_expand_rust_import() {
    assert_eq!(
        expand_rust_import("std::collections::{HashMap, HashSet}"),
        vec!["std::collections::HashMap", "std::collections::HashSet"]
    );
    assert_eq!(
        expand_rust_import("crate::{parser::ASTParser, linker::run_linker}"),
        vec!["crate::parser::ASTParser", "crate::linker::run_linker"]
    );
    assert_eq!(
        expand_rust_import("self::foo::{bar as baz, qux}"),
        vec!["self::foo::bar", "self::foo::qux"]
    );
    assert_eq!(
        expand_rust_import("crate::{a::{b, c}, d}"),
        vec!["crate::a::b", "crate::a::c", "crate::d"]
    );
}

#[test]
fn rust_test_expand_rust_import() {
    check_expand_rust_import();
}

#[test]
fn parser_test_expand_rust_import() {
    check_expand_rust_import();
}

#[test]
fn expand_rust_import_keeps_plain_paths() {
    assert_eq!(expand_rust_import("crate::db::Connection"), vec!["crate::db::Connection"]);
}

#[test]
fn test_parser_limits_constants_are_sane() {
    assert!(MAX_PARSE_BYTES >= (1024 * 1024) as u64);
    assert!(MAX_PARSE_BYTES <= 100 * 1024 * 1024);
    assert!(PARSE_TIMEOUT_MICROS > 0);
}

#[test]
fn unknown_extensions_yield_nothing() {
    let a = ASTParser::parse_file("notes.txt", "fn main() {}");
    assert!(a.nodes.is_empty() && a.edges.is_empty() && a.imports.is_empty() && a.calls.is_empty());
    assert!(language_from_path("notes.txt").is_none());
    assert!(language_from_path("lib.rs").is_some());
}

#[test]
fn rust_signatures_are_first_lines() {
    let a = ASTParser::parse_file("s.rs", "pub fn go(x: i32) -> i32 {\n    x\n}\n");
    assert_eq!(a.nodes.len(), 1);
    assert_eq!(a.nodes[0].signature, "pub fn go(x: i32) -> i32 {");
    assert_eq!(a.nodes[0].start_line, 1);
    assert_eq!(a.nodes[0].end_line, 3);
    assert_eq!(a.nodes[0].start_col, 1);
}

#[test]
fn rust_test_rust_declarations() {
    check_rust_declarations();
}

#[test]
fn parser_test_rust_declarations() {
    check_rust_declarations();
}

#[test]
fn rust_test_rust_parsing() {
    check_rust_parsing();
}

#[test]
fn parser_test_rust_parsing() {
    check_rust_parsing();
}
