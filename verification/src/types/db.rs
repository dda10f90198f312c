//! Records read back from the graph database.
use vstd::prelude::*;

verus! {

/// A file row: its path and its imports as stored (JSON text).
#[derive(Debug, Clone)]
pub struct FileRecord {
    pub path: String,
    pub raw_imports: String,
}

/// A symbol row: identity and its calls as stored (JSON text).
#[derive(Debug, Clone)]
pub struct SymbolRecord {
    pub id: String,
    pub name: String,
    pub kind: String,
    pub raw_calls: String,
}

/// Everything the indexer writes for one file.
pub struct ParsedPayload {
    pub relative_path: String,
    pub language: String,
    pub size: u64,
    pub hash: String,
    pub analysis: Option<crate::types::ast::FileAnalysis>,
    pub content: Option<String>,
}

} // verus!
