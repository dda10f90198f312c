//! Errors that MCP tools report.
use crate::text::{push_str, string_from_chars, to_chars};
use vstd::prelude::*;

verus! {

/// A tool failure, by the kind that agents act on.
#[derive(Debug)]
pub enum McpToolError {
    InvalidParams(String),
    NotFound(String),
    Internal(String),
}

/// The message a tool error displays.
pub open spec fn tool_error_message(e: McpToolError) -> Seq<char> {
    match e {
        McpToolError::InvalidParams(m) => "invalid parameters: "@ + m@,
        McpToolError::NotFound(m) => "not found: "@ + m@,
        McpToolError::Internal(m) => "internal error: "@ + m@,
    }
}

impl McpToolError {
    /// The displayed message: the kind, then the detail.
    pub fn message(&self) -> (r: String)
        ensures
            r@ == tool_error_message(*self),
    {
        let (head, m) = match self {
            McpToolError::InvalidParams(m) => ("invalid parameters: ", m),
            McpToolError::NotFound(m) => ("not found: ", m),
            McpToolError::Internal(m) => ("internal error: ", m),
        };
        let mut v = to_chars(head);
        push_str(&mut v, m.as_str());
        string_from_chars(v.as_slice())
    }
}

} // verus!
