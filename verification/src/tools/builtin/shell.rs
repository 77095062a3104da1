//! The shell tool: what a finished command reports.
use vstd::prelude::*;
use crate::security::sandbox::{default_patterns, first_blocked, SecurityPolicy};
use crate::text::{cat, cat3, i64_to_string, owned, signed_decimal, views};
use crate::tools::ToolResult;

verus! {

/// The `bash` tool.
pub struct ShellTool;

/// What `String::from_utf8_lossy` gives for bytes (invalid sequences become U+FFFD).
pub uninterp spec fn utf8_lossy(bytes: Seq<u8>) -> Seq<char>;

/// `String::from_utf8_lossy`, owned; named `utf8_lossy` of the bytes.
#[verifier::external_body]
pub fn decode_lossy(bytes: &[u8]) -> (s: String)
    ensures
        s@ == utf8_lossy(bytes@),
{
    String::from_utf8_lossy(bytes).into_owned()
}

/// Standard output, then standard error, with a newline between them when both are present.
pub open spec fn combined_output(stdout: Seq<char>, stderr: Seq<char>) -> Seq<char> {
    if stdout.len() > 0 && stderr.len() > 0 {
        stdout + "\n"@ + stderr
    } else {
        stdout + stderr
    }
}

/// What the tool reports for a finished command.
pub open spec fn shell_report(stdout: Seq<char>, stderr: Seq<char>, success: bool, code: Option<i32>) -> (
    bool,
    Seq<char>,
) {
    let c = combined_output(stdout, stderr);
    if success {
        (false, if c.len() == 0 {
            "（命令执行成功，无输出）"@
        } else {
            c
        })
    } else {
        let n: int = match code {
            Some(x) => x as int,
            None => -1,
        };
        (true, "退出码 "@ + signed_decimal(n) + ": "@ + c)
    }
}

proof fn lemma_first_blocked_range(cmd: Seq<char>, bl: Seq<Seq<char>>, from: int)
    requires
        0 <= from,
    ensures
        first_blocked(cmd, bl, from) < bl.len(),
    decreases bl.len() - from,
{
    if from < bl.len() {
        lemma_first_blocked_range(cmd, bl, from + 1);
    }
}

impl ShellTool {
    /// Checks a command against the default sandbox rules: the refusal when a blacklisted
    /// pattern occurs in it.
    pub fn screen(cmd: &str) -> (r: Option<ToolResult>)
        ensures
            ({
                let k = first_blocked(cmd@, default_patterns(), 0);
                &&& k < 0 ==> r is None
                &&& k >= 0 ==> (r matches Some(t) && t.is_error && t.output@ == "安全审计拦截：命令包含危险指令模式 '"@
                    + default_patterns()[k] + "'，拒绝执行"@)
            }),
    {
        let policy = SecurityPolicy::default();
        assert(views(policy.command_blacklist@) == default_patterns());
        proof {
            lemma_first_blocked_range(cmd@, default_patterns(), 0);
            assert forall|k: int| 0 <= k < policy.command_blacklist@.len() implies
                #[trigger] policy.command_blacklist@[k]@ == default_patterns()[k] by {
                assert(views(policy.command_blacklist@)[k] == policy.command_blacklist@[k]@);
            }
        }
        match policy.validate_command(cmd) {
            Ok(()) => None,
            Err(e) => Some(ToolResult::error(e.message())),
        }
    }

    /// The tool's report for a finished command from its decoded outputs, whether it exited
    /// successfully, and its exit code.
    pub fn report(stdout: &str, stderr: &str, success: bool, code: Option<i32>) -> (r: ToolResult)
        ensures
            (r.is_error, r.output@) == shell_report(stdout@, stderr@, success, code),
    {
        let combined: String = if stdout.unicode_len() > 0 && stderr.unicode_len() > 0 {
            cat3(stdout, "\n", stderr)
        } else {
            cat(stdout, stderr)
        };
        if success {
            if combined.as_str().unicode_len() == 0 {
                ToolResult::success(owned("（命令执行成功，无输出）"))
            } else {
                ToolResult::success(combined)
            }
        } else {
            let n: i64 = match code {
                Some(x) => x as i64,
                None => -1,
            };
            let num = i64_to_string(n);
            let head = cat3("退出码 ", num.as_str(), ": ");
            ToolResult::error(cat(head.as_str(), combined.as_str()))
        }
    }
}

} // verus!
