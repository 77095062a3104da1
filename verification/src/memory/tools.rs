//! The memory tools.
use vstd::prelude::*;
use std::sync::Arc;
use super::MemoryStore;
use crate::text::{cat, join, join_seq, owned, views};
use crate::tools::ToolResult;

verus! {

/// The `memory_save` tool.
pub struct MemorySaveTool {
    store: Arc<MemoryStore>,
}

/// The `memory_search` tool.
pub struct MemorySearchTool {
    store: Arc<MemoryStore>,
}

impl MemorySaveTool {
    /// The tool over `store`.
    pub fn new(store: Arc<MemoryStore>) -> (t: Self)
        ensures
            t.memory() == *store,
    {
        MemorySaveTool { store }
    }

    /// The memory written to.
    pub closed spec fn memory(&self) -> MemoryStore {
        *self.store
    }

    /// The memory written to.
    pub fn store(&self) -> (r: &MemoryStore)
        ensures
            *r == self.memory(),
    {
        &*self.store
    }

    /// The report after saving `fact`.
    pub fn saved(fact: &str) -> (r: ToolResult)
        ensures
            !r.is_error,
            r.output@ == "已成功将此事实写入长期记忆: "@ + fact@,
    {
        ToolResult::success(cat("已成功将此事实写入长期记忆: ", fact))
    }
}

impl MemorySearchTool {
    /// The tool over `store`.
    pub fn new(store: Arc<MemoryStore>) -> (t: Self)
        ensures
            t.memory() == *store,
    {
        MemorySearchTool { store }
    }

    /// The memory searched.
    pub closed spec fn memory(&self) -> MemoryStore {
        *self.store
    }

    /// The memory searched.
    pub fn store(&self) -> (r: &MemoryStore)
        ensures
            *r == self.memory(),
    {
        &*self.store
    }

    /// The report of a search: the matching lines, one per line, or a note that none matched.
    pub fn found(matches: &Vec<String>) -> (r: ToolResult)
        ensures
            !r.is_error,
            matches@.len() == 0 ==> r.output@ == "长期记忆中未找到相关事实"@,
            matches@.len() > 0 ==> r.output@ == join_seq(views(matches@), "\n"@),
    {
        if matches.len() == 0 {
            ToolResult::success(owned("长期记忆中未找到相关事实"))
        } else {
            ToolResult::success(join(matches, "\n"))
        }
    }
}

} // verus!
