//! Settings of the MCP server command.
use vstd::prelude::*;

verus! {

/// Arguments of `synapse mcp`.
#[derive(Debug, Clone)]
pub struct McpArgs {
    pub status: bool,
    pub tool_timeout_secs: u64,
}

} // verus!
