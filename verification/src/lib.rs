use vstd::prelude::*;

pub mod chunker;
pub mod dead_code;
pub mod file_utils;
pub mod impact;
pub mod index;
pub mod mcp;
pub mod parser;
pub mod paths;
pub mod post_index;
pub mod processor;
pub mod query;
pub mod query_cli;
pub mod ranking;
pub mod resolver;
pub mod schema;
pub mod text;
pub mod types;
pub mod watch;

verus! {

} // verus!
