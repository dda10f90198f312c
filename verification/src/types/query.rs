//! Rows handed to the query renderers.
use vstd::prelude::*;

verus! {

#[derive(Debug, Clone)]
pub struct SymbolInfo {
    pub id: String,
    pub name: String,
    pub kind: String,
    pub start_line: usize,
    pub end_line: usize,
    pub signature: String,
}

#[derive(Debug, Clone)]
pub struct FileInfo {
    pub path: String,
    pub language: String,
}

#[derive(Debug, Clone)]
pub struct CallerInfo {
    pub id: String,
    pub name: String,
    pub kind: String,
    pub signature: String,
    pub call_site_line: usize,
}

#[derive(Debug, Clone)]
pub struct CalleeInfo {
    pub id: String,
    pub name: String,
    pub kind: String,
    pub signature: String,
    pub call_site_line: usize,
}

#[derive(Debug, Clone)]
pub struct ContainedSymbolInfo {
    pub id: String,
    pub name: String,
    pub kind: String,
    pub signature: String,
}

#[derive(Debug, Clone)]
pub struct ContextPayload {
    pub symbol: Option<SymbolInfo>,
    pub file: Option<FileInfo>,
    pub source_code: String,
    pub callers: Vec<CallerInfo>,
    pub callees: Vec<CalleeInfo>,
    pub imports: Vec<String>,
    pub imported_by: Vec<String>,
    pub contained_symbols: Vec<ContainedSymbolInfo>,
}

/// The abstract value of a `SymbolInfo`.
pub struct SymbolView {
    pub id: Seq<char>,
    pub name: Seq<char>,
    pub kind: Seq<char>,
    pub start_line: int,
    pub end_line: int,
    pub signature: Seq<char>,
}

impl View for SymbolInfo {
    type V = SymbolView;

    open spec fn view(&self) -> SymbolView {
        SymbolView {
            id: self.id@,
            name: self.name@,
            kind: self.kind@,
            start_line: self.start_line as int,
            end_line: self.end_line as int,
            signature: self.signature@,
        }
    }
}

/// The abstract value of a `FileInfo`.
pub struct FileView {
    pub path: Seq<char>,
    pub language: Seq<char>,
}

impl View for FileInfo {
    type V = FileView;

    open spec fn view(&self) -> FileView {
        FileView { path: self.path@, language: self.language@ }
    }
}

impl SymbolInfo {
    /// A copy with the same fields.
    pub fn copy(&self) -> (r: SymbolInfo)
        ensures
            r@ == self@,
    {
        SymbolInfo {
            id: self.id.clone(),
            name: self.name.clone(),
            kind: self.kind.clone(),
            start_line: self.start_line,
            end_line: self.end_line,
            signature: self.signature.clone(),
        }
    }
}

impl FileInfo {
    /// A copy with the same fields.
    pub fn copy(&self) -> (r: FileInfo)
        ensures
            r@ == self@,
    {
        FileInfo { path: self.path.clone(), language: self.language.clone() }
    }
}

} // verus!
