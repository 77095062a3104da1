//! The `cron_create`, `cron_list` and `cron_delete` tools: what they answer.
use vstd::prelude::*;
use crate::clock::{display_utc, utc_display_text};
use crate::cron::CronJob;
use crate::text::{cat, cat3, decimal, owned, u64_to_string};
use crate::tools::ToolResult;

verus! {

/// The `cron_create` tool.
pub struct CronCreateTool;

/// The `cron_list` tool.
pub struct CronListTool;

/// The `cron_delete` tool.
pub struct CronDeleteTool;

/// What `cron_create` answers for a created job whose next run chrono writes as `next`.
pub open spec fn created_text(j: CronJob, next: Seq<char>) -> Seq<char> {
    "已成功创建定时任务 ["@ + j.id@ + "] 每 "@ + decimal(j.interval_minutes as nat) + " 分钟自动执行一次。下次执行时间: "@
        + next
}

impl CronCreateTool {
    /// The interval asked for: the given number of minutes, or 60 when none was given.
    pub fn requested_interval(arg: Option<u64>) -> (r: u64)
        ensures
            r == match arg {
                Some(m) => m,
                None => 60,
            },
    {
        match arg {
            Some(m) => m,
            None => 60,
        }
    }

    /// What the tool answers for a created job; `None` where chrono has no instant for its
    /// next run.
    pub fn answer(job: &CronJob) -> (r: Option<ToolResult>)
        ensures
            r is Some <==> utc_display_text(job.next_run) is Some,
            r matches Some(t) ==> !t.is_error && t.output@ == created_text(
                *job,
                utc_display_text(job.next_run)->0,
            ),
    {
        match display_utc(job.next_run) {
            None => None,
            Some(next) => {
                let minutes = u64_to_string(job.interval_minutes);
                let a = cat3("已成功创建定时任务 [", job.id.as_str(), "] 每 ");
                let b = cat3(a.as_str(), minutes.as_str(), " 分钟自动执行一次。下次执行时间: ");
                Some(ToolResult::success(cat(b.as_str(), next.as_str())))
            },
        }
    }
}

impl CronListTool {
    /// What the tool answers when no job is configured.
    pub fn empty_answer() -> (r: ToolResult)
        ensures
            !r.is_error,
            r.output@ == "当前无配置中的定时任务"@,
    {
        ToolResult::success(owned("当前无配置中的定时任务"))
    }
}

impl CronDeleteTool {
    /// What the tool answers after deleting `id`: success when a job had that id, else an error.
    pub fn answer(id: &str, found: bool) -> (r: ToolResult)
        ensures
            r.is_error == !found,
            found ==> r.output@ == "已成功删除任务 ["@ + id@ + "]"@,
            !found ==> r.output@ == "未找到 ID 为 ["@ + id@ + "] 的任务"@,
    {
        if found {
            ToolResult::success(cat3("已成功删除任务 [", id, "]"))
        } else {
            ToolResult::error(cat3("未找到 ID 为 [", id, "] 的任务"))
        }
    }
}

} // verus!
