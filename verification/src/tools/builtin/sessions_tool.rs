//! The `session_list` and `session_history` tools: what they answer.
use vstd::prelude::*;
use crate::clock::{clock_utc, utc_clock_text};
use crate::session::store::SessionSummaryInfo;
use crate::text::{cat, cat3, decimal, owned, u64_to_string};
use crate::tools::ToolResult;

verus! {

/// The `session_list` tool.
pub struct SessionListTool;

/// The `session_history` tool.
pub struct SessionHistoryTool;

/// The line of one saved session, with its last activity written as `clock`.
pub open spec fn session_line(s: SessionSummaryInfo, clock: Seq<char>) -> Seq<char> {
    "- ["@ + s.session_key@ + "] 消息轮数: "@ + decimal(s.message_count as nat) + " 轮 | 最后活跃: "@
        + clock + " | 文件大小: "@ + decimal(s.file_size_bytes as nat) + " 字节\n"@
}

/// Whether chrono can write the last activity of every session.
pub open spec fn all_clocks(ss: Seq<SessionSummaryInfo>) -> bool {
    forall|i: int| 0 <= i < ss.len() ==> (#[trigger] utc_clock_text(ss[i].updated_at)) is Some
}

/// The lines of the saved sessions, in order.
pub open spec fn session_lines(ss: Seq<SessionSummaryInfo>) -> Seq<char>
    decreases ss.len(),
{
    if ss.len() == 0 {
        seq![]
    } else {
        session_lines(ss.drop_last()) + session_line(ss.last(), utc_clock_text(ss.last().updated_at)->0)
    }
}

/// What `session_list` answers for the saved sessions.
pub open spec fn session_list_text(ss: Seq<SessionSummaryInfo>) -> Seq<char> {
    if ss.len() == 0 {
        "当前暂无已持久化的历史会话"@
    } else {
        "【已持久化会话清单】:\n"@ + session_lines(ss)
    }
}

impl SessionListTool {
    /// The line of one saved session, its last activity written as `clock`.
    pub fn line(s: &SessionSummaryInfo, clock: &str) -> (r: String)
        ensures
            r@ == session_line(*s, clock@),
    {
        let count = u64_to_string(s.message_count as u64);
        let size = u64_to_string(s.file_size_bytes);
        let a = cat3("- [", s.session_key.as_str(), "] 消息轮数: ");
        let b = cat3(a.as_str(), count.as_str(), " 轮 | 最后活跃: ");
        let c = cat3(b.as_str(), clock, " | 文件大小: ");
        cat3(c.as_str(), size.as_str(), " 字节\n")
    }

    /// What the tool answers for the saved sessions; `None` where chrono cannot write the
    /// last activity of one of them.
    pub fn answer(sessions: &Vec<SessionSummaryInfo>) -> (r: Option<ToolResult>)
        ensures
            r is Some <==> all_clocks(sessions@),
            r matches Some(t) ==> !t.is_error && t.output@ == session_list_text(sessions@),
    {
        if sessions.len() == 0 {
            return Some(ToolResult::success(owned("当前暂无已持久化的历史会话")));
        }
        let mut out = owned("【已持久化会话清单】:\n");
        let mut i: usize = 0;
        while i < sessions.len()
            invariant
                i <= sessions@.len(),
                sessions@.len() > 0,
                all_clocks(sessions@.take(i as int)),
                out@ == "【已持久化会话清单】:\n"@ + session_lines(sessions@.take(i as int)),
            decreases sessions.len() - i,
        {
            let ghost pre = sessions@.take(i as int);
            let s = &sessions[i];
            match clock_utc(s.updated_at) {
                None => {
                    return None;
                },
                Some(clock) => {
                    let l = Self::line(s, clock.as_str());
                    out = cat(out.as_str(), l.as_str());
                    proof {
                        let nxt = sessions@.take(i + 1);
                        assert(nxt.drop_last() =~= pre);
                        assert(nxt.last() == *s);
                        assert forall|k: int| 0 <= k < nxt.len() implies (#[trigger] utc_clock_text(
                            nxt[k].updated_at,
                        )) is Some by {
                            if k < i {
                                assert(nxt[k] == pre[k]);
                            }
                        }
                    }
                },
            }
            i = i + 1;
        }
        assert(sessions@.take(sessions@.len() as int) =~= sessions@);
        Some(ToolResult::success(out))
    }
}

impl SessionHistoryTool {
    /// What the tool answers for a session without messages.
    pub fn empty_answer(session_key: &str) -> (r: ToolResult)
        ensures
            !r.is_error,
            r.output@ == "会话 ["@ + session_key@ + "] 无历史消息"@,
    {
        ToolResult::success(cat3("会话 [", session_key, "] 无历史消息"))
    }
}

} // verus!
