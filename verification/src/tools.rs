//! Tools the agent can call, and their registry.
pub mod builtin;
pub mod mcp;
pub mod registry;

use vstd::prelude::*;

verus! {

/// What a tool hands back to the model: its output text and whether it failed.
#[derive(Debug, Clone)]
pub struct ToolResult {
    pub output: String,
    pub is_error: bool,
}

impl ToolResult {
    /// A successful result with `output`.
    pub fn success(output: String) -> (r: ToolResult)
        ensures
            r.output == output,
            !r.is_error,
    {
        ToolResult { output, is_error: false }
    }

    /// A failed result with `output`.
    pub fn error(output: String) -> (r: ToolResult)
        ensures
            r.output == output,
            r.is_error,
    {
        ToolResult { output, is_error: true }
    }
}

} // verus!
