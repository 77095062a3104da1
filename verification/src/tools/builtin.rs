//! The tools that come with the agent.
pub mod cron;
pub mod fs;
pub mod patch;
pub mod search;
pub mod sessions_tool;
pub mod shell;
pub mod spawn;
pub mod web;

use vstd::prelude::*;
use crate::text::owned;
use crate::tools::registry::ToolRegistry;

verus! {

/// The built-in tools.
#[derive(Debug, Clone, Copy, PartialEq, Eq)]
pub enum BuiltinTool {
    Shell,
    ReadFile,
    WriteFile,
    EditFile,
    ApplyPatch,
    Find,
    Grep,
    WebFetch,
}

/// The name under which a built-in tool is offered to the model.
pub open spec fn builtin_name(t: BuiltinTool) -> Seq<char> {
    match t {
        BuiltinTool::Shell => "bash"@,
        BuiltinTool::ReadFile => "read_file"@,
        BuiltinTool::WriteFile => "write_file"@,
        BuiltinTool::EditFile => "edit_file"@,
        BuiltinTool::ApplyPatch => "apply_patch"@,
        BuiltinTool::Find => "find_files"@,
        BuiltinTool::Grep => "grep_content"@,
        BuiltinTool::WebFetch => "web_fetch"@,
    }
}

/// The registry after registering every built-in tool, in order.
pub open spec fn with_builtins(m: Map<Seq<char>, BuiltinTool>) -> Map<Seq<char>, BuiltinTool> {
    m.insert("bash"@, BuiltinTool::Shell).insert("read_file"@, BuiltinTool::ReadFile).insert(
        "write_file"@,
        BuiltinTool::WriteFile,
    ).insert("edit_file"@, BuiltinTool::EditFile).insert("apply_patch"@, BuiltinTool::ApplyPatch).insert(
        "find_files"@,
        BuiltinTool::Find,
    ).insert("grep_content"@, BuiltinTool::Grep).insert("web_fetch"@, BuiltinTool::WebFetch)
}

impl BuiltinTool {
    /// The tool's name.
    pub fn name(&self) -> (r: String)
        ensures
            r@ == builtin_name(*self),
    {
        match self {
            BuiltinTool::Shell => owned("bash"),
            BuiltinTool::ReadFile => owned("read_file"),
            BuiltinTool::WriteFile => owned("write_file"),
            BuiltinTool::EditFile => owned("edit_file"),
            BuiltinTool::ApplyPatch => owned("apply_patch"),
            BuiltinTool::Find => owned("find_files"),
            BuiltinTool::Grep => owned("grep_content"),
            BuiltinTool::WebFetch => owned("web_fetch"),
        }
    }

    /// The tool's description for the model.
    pub fn description(&self) -> (r: String)
        ensures
            r@ == match *self {
                BuiltinTool::Shell => "在工作区执行安全的 Shell 命令行命令并返回输出"@,
                BuiltinTool::ReadFile => "读取指定文件的文本内容，支持行号和内容分块"@,
                BuiltinTool::WriteFile => "完全写入或覆盖文件内容"@,
                BuiltinTool::EditFile => "在文件中执行精确的原文字符串替换"@,
                BuiltinTool::ApplyPatch => "对指定文件应用标准 Unified Diff 补丁或指定块替换"@,
                BuiltinTool::Find => "在目录中递归搜索匹配特定模式的文件名"@,
                BuiltinTool::Grep => "在文件中使用正则表达式搜索包含特定内容的行"@,
                BuiltinTool::WebFetch => "抓取指定 URL 网页的文本内容并提取有效信息"@,
            },
    {
        match self {
            BuiltinTool::Shell => owned("在工作区执行安全的 Shell 命令行命令并返回输出"),
            BuiltinTool::ReadFile => owned("读取指定文件的文本内容，支持行号和内容分块"),
            BuiltinTool::WriteFile => owned("完全写入或覆盖文件内容"),
            BuiltinTool::EditFile => owned("在文件中执行精确的原文字符串替换"),
            BuiltinTool::ApplyPatch => owned("对指定文件应用标准 Unified Diff 补丁或指定块替换"),
            BuiltinTool::Find => owned("在目录中递归搜索匹配特定模式的文件名"),
            BuiltinTool::Grep => owned("在文件中使用正则表达式搜索包含特定内容的行"),
            BuiltinTool::WebFetch => owned("抓取指定 URL 网页的文本内容并提取有效信息"),
        }
    }
}

/// Registers every built-in tool under its name: bash, read_file, write_file, edit_file,
/// apply_patch, find_files, grep_content, web_fetch.
pub fn register_all_builtin(registry: &mut ToolRegistry<BuiltinTool>)
    ensures
        final(registry).view() == with_builtins(old(registry).view()),
{
    let all = [
        BuiltinTool::Shell,
        BuiltinTool::ReadFile,
        BuiltinTool::WriteFile,
        BuiltinTool::EditFile,
        BuiltinTool::ApplyPatch,
        BuiltinTool::Find,
        BuiltinTool::Grep,
        BuiltinTool::WebFetch,
    ];
    registry.register(all[0].name(), all[0]);
    registry.register(all[1].name(), all[1]);
    registry.register(all[2].name(), all[2]);
    registry.register(all[3].name(), all[3]);
    registry.register(all[4].name(), all[4]);
    registry.register(all[5].name(), all[5]);
    registry.register(all[6].name(), all[6]);
    registry.register(all[7].name(), all[7]);
}

} // verus!
