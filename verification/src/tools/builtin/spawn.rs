//! The `spawn` tool: the sub-agent's session and what its run reports.
use vstd::prelude::*;
use crate::clock::now_millis;
use crate::session::Session;
use crate::text::{cat, cat3, i64_to_string, signed_decimal};
use crate::tools::ToolResult;

verus! {

/// The `spawn` tool, which runs a sub-agent on a task of its own.
pub struct SpawnTool;

/// The session key of a sub-agent started at `now` (milliseconds since the epoch).
pub open spec fn sub_session_key(now: i64) -> Seq<char> {
    "subagent_"@ + signed_decimal(now as int)
}

/// The report of a sub-agent that finished with a conclusion.
pub open spec fn conclusion_report(description: Seq<char>, conclusion: Seq<char>) -> Seq<char> {
    "=== 子智能体 ["@ + description + "] 执行完成 ===\n结论: "@ + conclusion
}

impl SpawnTool {
    /// The key of a sub-agent's session started at `now`: `subagent_` and the milliseconds.
    pub fn sub_session_key(now: i64) -> (r: String)
        ensures
            r@ == sub_session_key(now),
    {
        let n = i64_to_string(now);
        cat("subagent_", n.as_str())
    }

    /// The fresh session of a sub-agent started at `now`.
    pub fn sub_session_at(now: i64) -> (s: Session)
        ensures
            s.session_key@ == sub_session_key(now),
            s.messages@.len() == 0,
            s.created_at == now,
            s.updated_at == now,
    {
        let key = Self::sub_session_key(now);
        Session::new_at(key.as_str(), now)
    }

    /// The fresh session of a sub-agent started now.
    pub fn sub_session() -> (s: Session)
        ensures
            s.session_key@ == sub_session_key(s.created_at),
            s.messages@.len() == 0,
            s.created_at == s.updated_at,
    {
        Self::sub_session_at(now_millis())
    }

    /// The report of a sub-agent run that ended with `conclusion`.
    pub fn finished(description: &str, conclusion: &str) -> (r: ToolResult)
        ensures
            !r.is_error,
            r.output@ == conclusion_report(description@, conclusion@),
    {
        let head = cat3("=== 子智能体 [", description, "] 执行完成 ===\n结论: ");
        ToolResult::success(cat(head.as_str(), conclusion))
    }
}

} // verus!
