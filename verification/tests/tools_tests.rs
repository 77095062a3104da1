use nanobot_rs::tools::builtin::fs::{resolve_path, EditFileTool, ReadFileTool, WriteFileTool};
use nanobot_rs::tools::builtin::patch::{ApplyPatchTool, PatchOutcome};
use nanobot_rs::tools::builtin::search::{FileEntry, FileText, FindTool, GrepTool, Pattern};
use nanobot_rs::tools::builtin::shell::{decode_lossy, ShellTool};
use nanobot_rs::tools::builtin::web::WebFetchTool;
use nanobot_rs::tools::builtin::{register_all_builtin, BuiltinTool};
use nanobot_rs::tools::registry::ToolRegistry;
use nanobot_rs::tools::ToolResult;
use nanobot_rs::security::sandbox::PathProbe;

#[test]
fn read_file_numbers_lines() {
    let r = ReadFileTool::render("l1\nl2\nl3", None, None);
    assert!(!r.is_error);
    assert_eq!(r.output, "   1\tl1\n   2\tl2\n   3\tl3");
    assert_eq!(ReadFileTool::render("l1\nl2\nl3", Some(2), Some(1)).output, "   2\tl2");
    assert_eq!(ReadFileTool::render("l1\nl2\nl3", Some(0), Some(2)).output, "   1\tl1\n   2\tl2");
    assert_eq!(ReadFileTool::render("l1\nl2\nl3", Some(10), None).output, "（已超过文件最大行数，无更多内容）");
    assert_eq!(ReadFileTool::render("a\r\nb", None, None).output, "   1\ta\n   2\tb");
    let many: String = (1..=12000).map(|i| format!("x{}\n", i)).collect();
    assert_eq!(ReadFileTool::render(&many, Some(10000), Some(1)).output, "10000\tx10000");
}

#[test]
fn edit_replaces_first_occurrence_only() {
    assert_eq!(EditFileTool::edit("a b a", "a", "c"), Some("c b a".to_string()));
    assert_eq!(EditFileTool::edit("abc", "x", "y"), None);
    assert_eq!(EditFileTool::not_found_message(), "未能找到完全匹配的 old_string，请核对缩进与换行");
}

#[test]
fn file_tool_reports() {
    assert_eq!(WriteFileTool::written("/ws/a.txt").output, "成功写入文件: \"/ws/a.txt\"");
    assert_eq!(EditFileTool::updated("/ws/a.txt").output, "已成功更新文件: \"/ws/a.txt\"");
    let missing = ToolResult::file_missing("/ws/none");
    assert!(missing.is_error);
    assert_eq!(missing.output, "文件不存在: \"/ws/none\"");
    let m = ToolResult::missing_argument("file_path");
    assert!(m.is_error);
    assert_eq!(m.output, "缺少 file_path 参数");
    assert_eq!(ApplyPatchTool::patched("/ws/a.txt").output, "已成功对 \"/ws/a.txt\" 应用补丁");
    assert_eq!(ApplyPatchTool::target_missing("/ws/b").output, "目标文件不存在: \"/ws/b\"");
}

#[test]
fn file_paths_resolve_in_the_sandbox() {
    let probe = PathProbe {
        workspace_canonical: Some("/ws".to_string()),
        requested_exists: false,
        requested_canonical: None,
        parent_canonical: Some("/ws".to_string()),
    };
    assert_eq!(resolve_path("/ws", "hello.txt", &probe), Ok("/ws/hello.txt".to_string()));
    let outside = PathProbe {
        workspace_canonical: Some("/ws".to_string()),
        requested_exists: false,
        requested_canonical: None,
        parent_canonical: Some("/etc".to_string()),
    };
    let e = resolve_path("/ws", "/etc/x", &outside).unwrap_err();
    assert!(e.starts_with("安全沙箱拒绝访问"));
    assert_eq!(nanobot_rs::tools::builtin::patch::resolve_path("/ws", "a/b.txt"), "/ws/a/b.txt");
}

#[test]
fn patch_outcomes() {
    let p = "@@ -1,3 +1,3 @@\n line 1\n-line two modified\n+line two patched\n line 3";
    match ApplyPatchTool::apply("line 1\nline two modified\nline 3", p) {
        PatchOutcome::Applied(t) => assert_eq!(t, "line 1\nline two patched\nline 3"),
        _ => panic!("should apply"),
    }
    let none = ApplyPatchTool::apply("a", "--- a\n+++ b\n@@ -1 +1 @@\n a");
    assert!(matches!(none, PatchOutcome::NoChanges));
    assert_eq!(none.failure_message().unwrap(), "未识别到有效的补丁变更内容（缺少 +/- 前缀）");
    let lost = ApplyPatchTool::apply("a\nb", "-zzz\n+y");
    assert!(matches!(lost, PatchOutcome::Unlocated));
    assert_eq!(lost.failure_message().unwrap(), "无法定位补丁中的上下文行，应用失败");
    // Lines that match one by one although the text uses CRLF line ends.
    match ApplyPatchTool::apply("a\r\nb\r\nc", "-a\n-b\n+X") {
        PatchOutcome::Applied(t) => assert_eq!(t, "X\nc"),
        _ => panic!("should apply line by line"),
    }
    // Only additions: an empty removal block never matches.
    assert!(matches!(ApplyPatchTool::apply("a", "+b"), PatchOutcome::Unlocated));
}

#[test]
fn regex_patterns() {
    let p = Pattern::compile(r"^ma.*\.rs$").unwrap();
    assert!(p.is_match("main.rs"));
    assert!(!p.is_match("lib.rs"));
    assert!(Pattern::compile("(").is_err());
}

#[test]
fn find_reports_matching_names() {
    let entries = vec![
        FileEntry { file_name: Some("main.rs".to_string()), display: "/ws/main.rs".to_string() },
        FileEntry { file_name: Some("a.txt".to_string()), display: "/ws/a.txt".to_string() },
        FileEntry { file_name: None, display: "/".to_string() },
    ];
    let r = FindTool::collect(r"\.rs$", &entries);
    assert!(!r.is_error);
    assert_eq!(r.output, "/ws/main.rs");
    assert_eq!(FindTool::collect("zzz", &entries).output, "未找到匹配的文件");
    let bad = FindTool::collect("[", &entries);
    assert!(bad.is_error);
    assert!(bad.output.starts_with("正则表达式无效: "));
}

#[test]
fn grep_reports_lines_and_caps_at_one_hundred() {
    let files = vec![
        FileText { display: "/ws/a.txt".to_string(), content: Some("hello\n  foo bar  \nbaz".to_string()) },
        FileText { display: "/ws/bin".to_string(), content: None },
    ];
    assert_eq!(GrepTool::collect("foo", &files).output, "/ws/a.txt:2: foo bar");
    assert_eq!(GrepTool::collect("nothing", &files).output, "未找到匹配的内容");
    let big: String = (0..150).map(|_| "x\n").collect();
    let many = vec![FileText { display: "f".to_string(), content: Some(big) }];
    let out = GrepTool::collect("x", &many).output;
    let ls: Vec<&str> = out.split('\n').collect();
    assert_eq!(ls.len(), 101);
    assert_eq!(ls[0], "f:1: x");
    assert_eq!(ls[99], "f:100: x");
    assert_eq!(ls[100], "... (已达到最大 100 条匹配上限)");
}

#[test]
fn shell_reports() {
    let ok = ShellTool::report("out", "", true, Some(0));
    assert!(!ok.is_error);
    assert_eq!(ok.output, "out");
    assert_eq!(ShellTool::report("", "", true, Some(0)).output, "（命令执行成功，无输出）");
    let failed = ShellTool::report("o", "e", false, Some(2));
    assert!(failed.is_error);
    assert_eq!(failed.output, "退出码 2: o\ne");
    assert_eq!(ShellTool::report("", "boom", false, None).output, "退出码 -1: boom");
    assert_eq!(decode_lossy(&[104, 105, 0xff]), "hi\u{fffd}");
}

#[test]
fn web_page_text_and_report() {
    let body = "<html>\n  <body>\n  Hello  \n\n<p>x</p>\nworld\nend>\n";
    let text = WebFetchTool::page_text(body);
    assert_eq!(text, "Hello\nworld");
    let r = WebFetchTool::report("200 OK", "https://example.com", &text);
    assert!(!r.is_error);
    assert_eq!(r.output, "HTTP 200 OK 来自 https://example.com:\nHello\nworld");
    let long = "a".repeat(4100);
    let s = WebFetchTool::summary(&long);
    assert_eq!(s, format!("{}...\n（内容过长，已截断展示前 4000 字符）", "a".repeat(4000)));
    assert_eq!(WebFetchTool::summary("short"), "short");
}

#[test]
fn registry_registers_and_finds_tools() {
    let mut reg: ToolRegistry<u32> = ToolRegistry::new();
    assert_eq!(reg.len(), 0);
    reg.register("a".to_string(), 1);
    reg.register("b".to_string(), 2);
    reg.register("a".to_string(), 3);
    assert_eq!(reg.len(), 2);
    assert_eq!(reg.get("a"), Some(&3));
    assert_eq!(reg.get("b"), Some(&2));
    assert_eq!(reg.get("c"), None);
    let u = ToolRegistry::<u32>::unknown_tool("c");
    assert!(u.is_error);
    assert_eq!(u.output, "未知工具: 'c'");
}

#[test]
fn builtin_tools_are_registered_by_name() {
    let mut reg: ToolRegistry<BuiltinTool> = ToolRegistry::new();
    register_all_builtin(&mut reg);
    assert_eq!(reg.len(), 8);
    for name in ["bash", "read_file", "write_file", "edit_file", "apply_patch", "find_files", "grep_content", "web_fetch"] {
        let t = reg.get(name).expect("registered");
        assert_eq!(t.name(), name);
    }
    assert_eq!(BuiltinTool::Shell.description(), "在工作区执行安全的 Shell 命令行命令并返回输出");
}

#[test]
fn patch_tool_writes_only_when_the_patch_applies() {
    let (r, w) = ApplyPatchTool::execute_on("/w/f.txt", None, Some("a"));
    assert!(r.is_error);
    assert_eq!(r.output, "缺少 patch 参数");
    assert!(w.is_none());
    let (r, w) = ApplyPatchTool::execute_on("/w/f.txt", Some("-a\n+b"), None);
    assert_eq!(r.output, "目标文件不存在: \"/w/f.txt\"");
    assert!(w.is_none());
    let (r, w) = ApplyPatchTool::execute_on("/w/f.txt", Some("+b"), Some("a"));
    assert_eq!(r.output, "无法定位补丁中的上下文行，应用失败");
    assert!(w.is_none());
    let (r, w) = ApplyPatchTool::execute_on("/w/f.txt", Some("@@ -1 +1 @@\n a"), Some("a"));
    assert_eq!(r.output, "未识别到有效的补丁变更内容（缺少 +/- 前缀）");
    assert!(w.is_none());
    let (r, w) = ApplyPatchTool::execute_on("/w/f.txt", Some("-a\n+b"), Some("x\na\ny"));
    assert!(!r.is_error);
    assert_eq!(r.output, "已成功对 \"/w/f.txt\" 应用补丁");
    assert_eq!(w.as_deref(), Some("x\nb\ny"));
}
