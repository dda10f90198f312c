//! The MCP tools' identities, and how query failures map to tool errors.
use crate::mcp::repo_registry::{entry_views, position_of_name, registry_error_message, RegistryError, RepoRegistry};
use crate::mcp::tools::McpToolError;
use crate::text::{contains, contains_chars, owned, push_str, string_from_chars, to_chars};
use vstd::prelude::*;

verus! {

/// `synapse_cypher`: execute a raw Cypher query against the code graph.
pub struct CypherTool;

/// `synapse_callers`: find direct and transitive callers of a symbol.
pub struct CallersTool;

/// `synapse_callees`: find what a target symbol calls.
pub struct CalleesTool;

/// `synapse_deps`: list imports + imported-by for a target file.
pub struct DepsTool;

/// `synapse_context`: retrieve consolidated code intelligence for a symbol or file.
pub struct ContextTool;

/// `synapse_query`: semantic search over indexed code chunks via embeddings.
pub struct QueryTool;

/// `synapse_impact`: blast radius sorted by PageRank.
pub struct ImpactTool;

/// `synapse_rank`: top symbols by PageRank over the CALLS graph.
pub struct RankTool;

impl CypherTool {
    pub fn name(&self) -> (r: &'static str)
        ensures
            r@ == "synapse_cypher"@,
    {
        "synapse_cypher"
    }

    pub fn description(&self) -> (r: &'static str)
        ensures
            r@ == "Execute a raw Cypher query against the code graph. Returns a JSON array of result rows."@,
    {
        "Execute a raw Cypher query against the code graph. Returns a JSON array of result rows."
    }
}

impl CallersTool {
    pub fn name(&self) -> (r: &'static str)
        ensures
            r@ == "synapse_callers"@,
    {
        "synapse_callers"
    }

    pub fn description(&self) -> (r: &'static str)
        ensures
            r@ == "Find direct and transitive callers of a target symbol. Walks the full CALLS graph."@,
    {
        "Find direct and transitive callers of a target symbol. Walks the full CALLS graph."
    }
}

impl CalleesTool {
    pub fn name(&self) -> (r: &'static str)
        ensures
            r@ == "synapse_callees"@,
    {
        "synapse_callees"
    }

    pub fn description(&self) -> (r: &'static str)
        ensures
            r@ == "Find what a target symbol calls. Walks one level (callees are direct dependencies)."@,
    {
        "Find what a target symbol calls. Walks one level (callees are direct dependencies)."
    }
}

impl DepsTool {
    pub fn name(&self) -> (r: &'static str)
        ensures
            r@ == "synapse_deps"@,
    {
        "synapse_deps"
    }

    pub fn description(&self) -> (r: &'static str)
        ensures
            r@ == "List imports and imported-by for a target file (synapse deps)."@,
    {
        "List imports and imported-by for a target file (synapse deps)."
    }
}

impl ContextTool {
    pub fn name(&self) -> (r: &'static str)
        ensures
            r@ == "synapse_context"@,
    {
        "synapse_context"
    }

    pub fn description(&self) -> (r: &'static str)
        ensures
            r@ == "Retrieve code intelligence for a symbol or file: signature, source slice, call graph, and dependencies."@,
    {
        "Retrieve code intelligence for a symbol or file: signature, source slice, call graph, and dependencies."
    }
}

impl QueryTool {
    pub fn name(&self) -> (r: &'static str)
        ensures
            r@ == "synapse_query"@,
    {
        "synapse_query"
    }

    pub fn description(&self) -> (r: &'static str)
        ensures
            r@ == "Semantic search over indexed code chunks. Requires `synapse embed` to have been run."@,
    {
        "Semantic search over indexed code chunks. Requires `synapse embed` to have been run."
    }
}

impl ImpactTool {
    pub fn name(&self) -> (r: &'static str)
        ensures
            r@ == "synapse_impact"@,
    {
        "synapse_impact"
    }

    pub fn description(&self) -> (r: &'static str)
        ensures
            r@ == "Show all symbols transitively affected by changes to a target symbol, sorted by PageRank."@,
    {
        "Show all symbols transitively affected by changes to a target symbol, sorted by PageRank."
    }
}

impl RankTool {
    pub fn name(&self) -> (r: &'static str)
        ensures
            r@ == "synapse_rank"@,
    {
        "synapse_rank"
    }

    pub fn description(&self) -> (r: &'static str)
        ensures
            r@ == "List top symbols by PageRank over the CALLS graph."@,
    {
        "List top symbols by PageRank over the CALLS graph."
    }
}

/// The message a tool error carries.
pub open spec fn error_detail(e: McpToolError) -> Seq<char> {
    match e {
        McpToolError::InvalidParams(m) => m@,
        McpToolError::NotFound(m) => m@,
        McpToolError::Internal(m) => m@,
    }
}

/// Classifies a query handler's error message (its displayed text) into a
/// tool error that carries the same message.
pub fn classify_query_error(msg: &str) -> (r: McpToolError)
    ensures
        error_detail(r) == msg@,
        (contains(msg@, "matches multiple"@) || contains(msg@, "Ambiguous"@)) ==> r is InvalidParams,
        !(contains(msg@, "matches multiple"@) || contains(msg@, "Ambiguous"@)) && (contains(msg@, "No symbol matches"@) || contains(msg@, "NoMatch"@)) ==> r is NotFound,
        !(contains(msg@, "matches multiple"@) || contains(msg@, "Ambiguous"@)) && !(contains(msg@, "No symbol matches"@) || contains(msg@, "NoMatch"@)) ==> r is Internal,
{
    let m = to_chars(msg);
    let a = to_chars("matches multiple");
    let b = to_chars("Ambiguous");
    let c = to_chars("No symbol matches");
    let d = to_chars("NoMatch");
    if contains_chars(m.as_slice(), a.as_slice()) || contains_chars(m.as_slice(), b.as_slice()) {
        McpToolError::InvalidParams(owned(msg))
    } else if contains_chars(m.as_slice(), c.as_slice()) || contains_chars(m.as_slice(), d.as_slice()) {
        McpToolError::NotFound(owned(msg))
    } else {
        McpToolError::Internal(owned(msg))
    }
}

/// The tool error for a registry that could not be read.
pub open spec fn registry_load_failure(e: RegistryError) -> Seq<char> {
    match e {
        RegistryError::NoHome => "HOME is unset; cannot read ~/.synapse/repos.json"@,
        _ => "registry load failed: "@ + registry_error_message(e),
    }
}

/// The tool error for a registry that could not be read: an internal one.
pub fn registry_load_error(e: &RegistryError) -> (r: McpToolError)
    ensures
        r matches McpToolError::Internal(m) && m@ == registry_load_failure(*e),
{
    match e {
        RegistryError::NoHome => McpToolError::Internal(owned("HOME is unset; cannot read ~/.synapse/repos.json")),
        _ => {
            let mut v = to_chars("registry load failed: ");
            let m = e.message();
            push_str(&mut v, m.as_str());
            McpToolError::Internal(string_from_chars(v.as_slice()))
        },
    }
}

/// The database of the repository registered as `name`, or the error that
/// it is not registered.
pub fn registered_db_path(registry: &RepoRegistry, name: &str) -> (r: Result<String, McpToolError>)
    ensures
        match position_of_name(entry_views(registry.entries@), name@) {
            Some(i) => r matches Ok(p) && p@ == registry.entries@[i].db_path@,
            None => r matches Err(McpToolError::NotFound(m)) && m@ == "repo '"@ + name@
                + "' not found in registry; see synapse://repos for available repos"@,
        },
{
    match registry.find_by_name(name) {
        Some(entry) => Ok(entry.db_path.clone()),
        None => {
            let mut v = to_chars("repo '");
            push_str(&mut v, name);
            push_str(&mut v, "' not found in registry; see synapse://repos for available repos");
            Err(McpToolError::NotFound(string_from_chars(v.as_slice())))
        },
    }
}

/// The tool error for a registered repository whose database file is gone.
pub fn missing_db_error(db_path: &str, name: &str) -> (r: McpToolError)
    ensures
        r matches McpToolError::InvalidParams(m) && m@ == "db file '"@ + db_path@ + "' not found for repo '"@ + name@
            + "' (run `synapse index` to re-create)"@,
{
    let mut v = to_chars("db file '");
    push_str(&mut v, db_path);
    push_str(&mut v, "' not found for repo '");
    push_str(&mut v, name);
    push_str(&mut v, "' (run `synapse index` to re-create)");
    McpToolError::InvalidParams(string_from_chars(v.as_slice()))
}

/// The tool error when no repository is named and the working directory
/// holds no database.
pub fn no_repo_error() -> (r: McpToolError)
    ensures
        r matches McpToolError::InvalidParams(m)
            && m@ == "no repo specified and no synapse.lbug in cwd; see synapse://repos for available repos"@,
{
    McpToolError::InvalidParams(owned("no repo specified and no synapse.lbug in cwd; see synapse://repos for available repos"))
}

} // verus!
