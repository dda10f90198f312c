//! What a parse of one source file yields.
use vstd::prelude::*;

verus! {

/// An import statement as written in the source, before resolution.
#[derive(Debug, Clone, PartialEq)]
pub struct RawImport {
    pub path: String,
    pub line: usize,
}

/// A call site as written in the source, before resolution.
#[derive(Debug, Clone, PartialEq)]
pub struct RawCall {
    pub name: String,
    pub line: usize,
    pub is_method: bool,
}

/// Everything extracted from one file.
#[derive(Debug, Clone)]
pub struct FileAnalysis {
    pub nodes: Vec<NodeData>,
    pub edges: Vec<EdgeData>,
    pub imports: Vec<RawImport>,
    pub calls: Vec<RawCall>,
}

/// A declared symbol.
#[derive(Debug, Clone, PartialEq)]
pub struct NodeData {
    pub id: String,
    pub name: String,
    pub kind: String,
    pub start_line: usize,
    pub start_col: usize,
    pub end_line: usize,
    pub signature: String,
}

/// A containment edge between a file or symbol and a symbol.
#[derive(Debug, Clone, PartialEq)]
pub struct EdgeData {
    pub from_id: String,
    pub to_id: String,
    pub edge_type: String,
}

/// A piece of source text prepared for embedding.
#[derive(Debug, Clone, PartialEq)]
pub struct CodeChunk {
    pub id: String,
    pub text: String,
    pub symbol_id: Option<String>,
}

/// The abstract value of a `RawImport`.
pub struct ImportView {
    pub path: Seq<char>,
    pub line: int,
}

/// The abstract value of a `RawCall`.
pub struct CallView {
    pub name: Seq<char>,
    pub line: int,
    pub is_method: bool,
}

/// The abstract value of a `NodeData`.
pub struct NodeView {
    pub id: Seq<char>,
    pub name: Seq<char>,
    pub kind: Seq<char>,
    pub start_line: int,
    pub start_col: int,
    pub end_line: int,
    pub signature: Seq<char>,
}

/// The abstract value of an `EdgeData`.
pub struct EdgeView {
    pub from_id: Seq<char>,
    pub to_id: Seq<char>,
    pub edge_type: Seq<char>,
}

/// The abstract value of a `FileAnalysis`.
pub struct AnalysisView {
    pub nodes: Seq<NodeView>,
    pub edges: Seq<EdgeView>,
    pub imports: Seq<ImportView>,
    pub calls: Seq<CallView>,
}

impl View for RawImport {
    type V = ImportView;

    open spec fn view(&self) -> ImportView {
        ImportView { path: self.path@, line: self.line as int }
    }
}

impl View for RawCall {
    type V = CallView;

    open spec fn view(&self) -> CallView {
        CallView { name: self.name@, line: self.line as int, is_method: self.is_method }
    }
}

impl View for NodeData {
    type V = NodeView;

    open spec fn view(&self) -> NodeView {
        NodeView {
            id: self.id@,
            name: self.name@,
            kind: self.kind@,
            start_line: self.start_line as int,
            start_col: self.start_col as int,
            end_line: self.end_line as int,
            signature: self.signature@,
        }
    }
}

impl View for EdgeData {
    type V = EdgeView;

    open spec fn view(&self) -> EdgeView {
        EdgeView { from_id: self.from_id@, to_id: self.to_id@, edge_type: self.edge_type@ }
    }
}

/// The views of a sequence of nodes.
pub open spec fn node_views(s: Seq<NodeData>) -> Seq<NodeView> {
    s.map_values(|x: NodeData| x@)
}

/// The views of a sequence of edges.
pub open spec fn edge_views(s: Seq<EdgeData>) -> Seq<EdgeView> {
    s.map_values(|x: EdgeData| x@)
}

/// The views of a sequence of imports.
pub open spec fn import_views(s: Seq<RawImport>) -> Seq<ImportView> {
    s.map_values(|x: RawImport| x@)
}

/// The views of a sequence of calls.
pub open spec fn call_views(s: Seq<RawCall>) -> Seq<CallView> {
    s.map_values(|x: RawCall| x@)
}

/// An analysis with nothing in it.
pub open spec fn empty_analysis() -> AnalysisView {
    AnalysisView { nodes: seq![], edges: seq![], imports: seq![], calls: seq![] }
}

/// `a` followed by `b`, part by part.
pub open spec fn append_analysis(a: AnalysisView, b: AnalysisView) -> AnalysisView {
    AnalysisView {
        nodes: a.nodes + b.nodes,
        edges: a.edges + b.edges,
        imports: a.imports + b.imports,
        calls: a.calls + b.calls,
    }
}

impl View for FileAnalysis {
    type V = AnalysisView;

    open spec fn view(&self) -> AnalysisView {
        AnalysisView {
            nodes: node_views(self.nodes@),
            edges: edge_views(self.edges@),
            imports: import_views(self.imports@),
            calls: call_views(self.calls@),
        }
    }
}

impl FileAnalysis {
    /// An analysis with nothing in it.
    pub fn empty() -> (r: FileAnalysis)
        ensures
            r@ == empty_analysis(),
    {
        let r = FileAnalysis { nodes: Vec::new(), edges: Vec::new(), imports: Vec::new(), calls: Vec::new() };
        proof {
            assert(r@.nodes =~= seq![]);
            assert(r@.edges =~= seq![]);
            assert(r@.imports =~= seq![]);
            assert(r@.calls =~= seq![]);
        }
        r
    }
}

} // verus!
