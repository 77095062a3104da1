//! The file tools: reading with line numbers, writing, and exact-text editing.
use vstd::prelude::*;
use crate::security::sandbox::{
    checked_path, debug_quoted, debug_text, requested_path, workspace_root, PathProbe, SecurityPolicy,
};
use crate::paths::{has_path_prefix, no_parent_segment, resolved_path, resolved_segments};
use crate::text::{
    cat3, contains, contains_seq, decimal, join, join_seq, lines, lines_of, owned, pad_left,
    pad_left_str, replace_first, replace_first_str, u64_to_string, views, lemma_views_push,
};
use crate::tools::ToolResult;

verus! {

/// The `read_file` tool.
pub struct ReadFileTool;

/// The `write_file` tool.
pub struct WriteFileTool;

/// The `edit_file` tool.
pub struct EditFileTool;

/// Resolves a tool's `file_path` argument under the default sandbox rules: the checked path,
/// or the refusal message.
pub fn resolve_path(workspace: &str, file_path: &str, probe: &PathProbe) -> (r: Result<
    String,
    String,
>)
    ensures
        ({
            let req = requested_path(file_path@, workspace@);
            let check = checked_path(req, *probe);
            let root = resolved_path(workspace_root(workspace@, *probe));
            let resolved = resolved_path(check);
            if no_parent_segment(resolved_segments(check)) && has_path_prefix(resolved, root) {
                r matches Ok(p) && p@ == check
            } else {
                r is Err
            }
        }),
{
    let policy = SecurityPolicy::default();
    match policy.validate_path(file_path, workspace, probe) {
        Ok(p) => Ok(p),
        Err(e) => Err(e.message()),
    }
}

/// The first line to show (0-based): the 1-based `offset`, at least 1, less one.
pub open spec fn read_start(offset: Option<u64>) -> nat {
    let o = match offset {
        Some(x) => x as nat,
        None => 1,
    };
    if o < 1 {
        0
    } else {
        (o - 1) as nat
    }
}

/// How many lines to show at most.
pub open spec fn read_limit(limit: Option<u64>) -> nat {
    match limit {
        Some(x) => x as nat,
        None => 2000,
    }
}

/// A shown line: its 1-based number right-aligned in four columns, a tab, the line.
pub open spec fn numbered_line(n: nat, line: Seq<char>) -> Seq<char> {
    pad_left(decimal(n), 4) + "\t"@ + line
}

/// The numbered lines `ls[start..end]`.
pub open spec fn numbered_range(ls: Seq<Seq<char>>, start: nat, end: nat) -> Seq<Seq<char>> {
    Seq::new((end - start) as nat, |k: int| numbered_line((start + k + 1) as nat, ls[start + k]))
}

/// What `read_file` shows of a file's text.
pub open spec fn read_output(content: Seq<char>, offset: Option<u64>, limit: Option<u64>) -> Seq<
    char,
> {
    let ls = lines_of(content);
    let start = read_start(offset);
    let lim = read_limit(limit);
    let end = if start + lim <= ls.len() {
        start + lim
    } else {
        ls.len()
    };
    if start >= ls.len() {
        "（已超过文件最大行数，无更多内容）"@
    } else {
        join_seq(numbered_range(ls, start, end as nat), "\n"@)
    }
}

/// The text of one shown line.
fn number_line(n: u64, line: &str) -> (r: String)
    ensures
        r@ == numbered_line(n as nat, line@),
{
    let d = u64_to_string(n);
    let p = pad_left_str(d.as_str(), 4);
    cat3(p.as_str(), "\t", line)
}

impl ReadFileTool {
    /// Shows a file's text with line numbers, from the line `offset` (1-based, default 1) for
    /// at most `limit` lines (default 2000).
    pub fn render(content: &str, offset: Option<u64>, limit: Option<u64>) -> (r: ToolResult)
        requires
            read_start(offset) + read_limit(limit) <= u64::MAX,
        ensures
            !r.is_error,
            r.output@ == read_output(content@, offset, limit),
    {
        let ls = lines(content);
        let ghost lsv = lines_of(content@);
        assert(views(ls@) =~= lsv);
        let o: u64 = match offset {
            Some(x) => x,
            None => 1,
        };
        let start: u64 = if o < 1 {
            0
        } else {
            o - 1
        };
        let lim: u64 = match limit {
            Some(x) => x,
            None => 2000,
        };
        let n = ls.len() as u64;
        let end: u64 = if start + lim <= n {
            start + lim
        } else {
            n
        };
        if start >= n {
            return ToolResult::success(owned("（已超过文件最大行数，无更多内容）"));
        }
        let mut numbered: Vec<String> = Vec::new();
        let mut i: u64 = start;
        while i < end
            invariant
                views(ls@) == lsv,
                n == lsv.len(),
                n == ls.len(),
                start <= i <= end <= n,
                views(numbered@) == numbered_range(lsv, start as nat, i as nat),
            decreases end - i,
        {
            let idx = i as usize;
            assert(idx == i);
            let line = number_line(i + 1, ls[idx].as_str());
            proof {
                assert(views(ls@)[idx as int] == ls@[idx as int]@);
                lemma_views_push(numbered@, line);
                let a = views(numbered@.push(line));
                let b = numbered_range(lsv, start as nat, (i + 1) as nat);
                let c = numbered_range(lsv, start as nat, i as nat);
                assert forall|k: int| 0 <= k < b.len() implies a[k] == b[k] by {
                    if k < (i - start) {
                        assert(a[k] == c[k]);
                    }
                }
                assert(a =~= b);
            }
            numbered.push(line);
            i = i + 1;
        }
        ToolResult::success(join(&numbered, "\n"))
    }
}

/// What editing gives: the first occurrence of `old` replaced by `new`, when `old` occurs.
pub open spec fn edit_effect(content: Seq<char>, old: Seq<char>, new: Seq<char>) -> Option<
    Seq<char>,
> {
    if contains_seq(content, old) {
        Some(replace_first(content, old, new))
    } else {
        None
    }
}

impl EditFileTool {
    /// Replaces the first occurrence of `old` in `content` by `new`; `None` when `old` does
    /// not occur.
    pub fn edit(content: &str, old: &str, new: &str) -> (r: Option<String>)
        ensures
            match r {
                Some(s) => edit_effect(content@, old@, new@) == Some(s@),
                None => edit_effect(content@, old@, new@) is None,
            },
    {
        if !contains(content, old) {
            return None;
        }
        Some(replace_first_str(content, old, new))
    }

    /// The error text when `old_string` is not found.
    pub fn not_found_message() -> (m: String)
        ensures
            m@ == "未能找到完全匹配的 old_string，请核对缩进与换行"@,
    {
        owned("未能找到完全匹配的 old_string，请核对缩进与换行")
    }
}

impl WriteFileTool {
    /// The report of a written file.
    pub fn written(path: &str) -> (r: ToolResult)
        ensures
            !r.is_error,
            r.output@ == "成功写入文件: "@ + debug_text(path@),
    {
        let p = debug_quoted(path);
        ToolResult::success(crate::text::cat("成功写入文件: ", p.as_str()))
    }
}

impl EditFileTool {
    /// The report of an edited file.
    pub fn updated(path: &str) -> (r: ToolResult)
        ensures
            !r.is_error,
            r.output@ == "已成功更新文件: "@ + debug_text(path@),
    {
        let p = debug_quoted(path);
        ToolResult::success(crate::text::cat("已成功更新文件: ", p.as_str()))
    }
}

impl ToolResult {
    /// The error for a file that does not exist.
    pub fn file_missing(path: &str) -> (r: ToolResult)
        ensures
            r.is_error,
            r.output@ == "文件不存在: "@ + debug_text(path@),
    {
        let p = debug_quoted(path);
        ToolResult::error(crate::text::cat("文件不存在: ", p.as_str()))
    }

    /// The error for a missing argument: `缺少 <name> 参数`.
    pub fn missing_argument(name: &str) -> (r: ToolResult)
        ensures
            r.is_error,
            r.output@ == "缺少 "@ + name@ + " 参数"@,
    {
        ToolResult::error(cat3("缺少 ", name, " 参数"))
    }
}

} // verus!
