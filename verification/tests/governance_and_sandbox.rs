use nanobot_rs::security::context_governance::ContextGovernance;
use nanobot_rs::security::sandbox::{PathProbe, SandboxError, SecurityPolicy};
use nanobot_rs::session::SessionMessage;
use nanobot_rs::tools::builtin::shell::ShellTool;

fn message(role: &str, content: &str) -> SessionMessage {
    SessionMessage {
        role: role.to_string(),
        content: Some(content.to_string()),
        name: None,
        tool_calls: None,
        tool_call_id: None,
        timestamp: 0,
    }
}

fn contents(ms: &[SessionMessage]) -> Vec<String> {
    ms.iter().map(|m| m.content.clone().unwrap_or_default()).collect()
}

#[test]
fn estimate_tokens_weighs_ascii_and_other_characters() {
    assert_eq!(ContextGovernance::estimate_tokens(""), 1);
    assert_eq!(ContextGovernance::estimate_tokens("abc"), 2);
    assert_eq!(ContextGovernance::estimate_tokens("abcd"), 3);
    assert_eq!(ContextGovernance::estimate_tokens("你好"), 3);
    assert_eq!(ContextGovernance::estimate_tokens("hi你好"), 4);
}

#[test]
fn default_governance_budget() {
    let g = ContextGovernance::default();
    assert_eq!(g.max_prompt_tokens, 128_000);
    assert_eq!(g.reserve_completion_tokens, 4_096);
}

#[test]
fn governance_keeps_everything_that_fits() {
    let g = ContextGovernance::default();
    let ms = vec![message("system", "sys"), message("user", "hello"), message("assistant", "hi")];
    assert!(ContextGovernance::costs_within_limits(&ms));
    let out = g.govern_messages(&ms);
    assert_eq!(contents(&out), vec!["sys", "hello", "hi"]);
}

#[test]
fn governance_keeps_system_and_user_aligned_tail() {
    // costs: sys 6, user 10, assistant 6, user 6, assistant 6; total 34
    let ms = vec![
        message("system", "sys"),
        message("user", "aaaaaaaaaa"),
        message("assistant", "bb"),
        message("user", "cc"),
        message("assistant", "dd"),
    ];
    let g = ContextGovernance { max_prompt_tokens: 20, reserve_completion_tokens: 0 };
    let out = g.govern_messages(&ms);
    assert_eq!(contents(&out), vec!["sys", "cc", "dd"]);
    assert_eq!(out[1].role, "user");

    // The system message is paid for first: 24 tokens are left, which the last four
    // messages (28) exceed, so the window starts at the last user message.
    let g2 = ContextGovernance { max_prompt_tokens: 30, reserve_completion_tokens: 0 };
    assert_eq!(contents(&g2.govern_messages(&ms)), vec!["sys", "cc", "dd"]);

    // A reserve larger than the maximum leaves a budget of nothing: nothing is kept.
    let g3 = ContextGovernance { max_prompt_tokens: 10, reserve_completion_tokens: 20 };
    assert!(g3.govern_messages(&ms).is_empty());
}

#[test]
fn a_system_message_over_the_budget_is_dropped() {
    // system: 4 + (200 / 2 + 1) = 105; user "hi": 6; budget 10
    let ms = vec![message("system", &"s".repeat(200)), message("user", "hi")];
    let g = ContextGovernance { max_prompt_tokens: 10, reserve_completion_tokens: 0 };
    let out = g.govern_messages(&ms);
    assert_eq!(contents(&out), vec!["hi"]);
    // Every kept message together stays within the budget.
    let cost: usize = out
        .iter()
        .map(|m| 4 + m.content.as_deref().map(ContextGovernance::estimate_tokens).unwrap_or(0))
        .sum();
    assert!(cost <= 10);
}

#[test]
fn dangerous_commands_are_refused() {
    let p = SecurityPolicy::default();
    match p.validate_command("  rm -rf / --no-preserve-root ") {
        Err(SandboxError::DangerousCommand { pattern }) => assert_eq!(pattern, "rm -rf /"),
        other => panic!("unexpected: {:?}", other),
    }
    assert!(p.validate_command("ls -la").is_ok());
    assert!(p.validate_command("mkfs.ext4 /dev/sda").is_err());
    let e = p.validate_command("dd if=/dev/zero of=/dev/sda").unwrap_err();
    assert_eq!(e.message(), "安全审计拦截：命令包含危险指令模式 'dd if=/dev/zero'，拒绝执行");
}

#[test]
fn shell_screen_uses_default_rules() {
    let r = ShellTool::screen("chmod -R 777 / ").expect("refused");
    assert!(r.is_error);
    assert_eq!(r.output, "安全审计拦截：命令包含危险指令模式 'chmod -R 777 /'，拒绝执行");
    assert!(ShellTool::screen("echo hi").is_none());
}

fn probe(ws: Option<&str>, exists: bool, canon: Option<&str>, parent: Option<&str>) -> PathProbe {
    PathProbe {
        workspace_canonical: ws.map(|s| s.to_string()),
        requested_exists: exists,
        requested_canonical: canon.map(|s| s.to_string()),
        parent_canonical: parent.map(|s| s.to_string()),
    }
}

#[test]
fn paths_inside_the_workspace_are_accepted() {
    let p = SecurityPolicy::default();
    assert_eq!(SecurityPolicy::request_path("a.txt", "/ws"), "/ws/a.txt");
    assert_eq!(SecurityPolicy::request_path("/etc/passwd", "/ws"), "/etc/passwd");

    let existing = probe(Some("/private/ws"), true, Some("/private/ws/a.txt"), None);
    assert_eq!(p.validate_path("a.txt", "/ws", &existing).unwrap(), "/private/ws/a.txt");

    let new_file = probe(Some("/private/ws"), false, None, Some("/private/ws/sub"));
    assert_eq!(p.validate_path("sub/new.txt", "/ws", &new_file).unwrap(), "/private/ws/sub/new.txt");
}

#[test]
fn paths_outside_the_workspace_are_refused() {
    let p = SecurityPolicy::default();
    let outside = probe(Some("/ws"), true, Some("/etc/passwd"), None);
    match p.validate_path("/etc/passwd", "/ws", &outside) {
        Err(SandboxError::OutsideWorkspace { path, workspace }) => {
            assert_eq!(path, "/etc/passwd");
            assert_eq!(workspace, "/ws");
        }
        other => panic!("unexpected: {:?}", other),
    }
    let e = p.validate_path("/etc/passwd", "/ws", &outside).unwrap_err();
    assert_eq!(e.message(), "安全沙箱拒绝访问：路径 \"/etc/passwd\" 超出允许的工作区范围 \"/ws\"");

    // A sibling directory that merely shares the prefix text is outside.
    let sibling = probe(Some("/ws"), true, Some("/ws2/a.txt"), None);
    assert!(p.validate_path("../ws2/a.txt", "/ws", &sibling).is_err());

    let open = SecurityPolicy { allow_outside_workspace: true, command_blacklist: vec![] };
    assert_eq!(open.validate_path("/etc/passwd", "/ws", &outside).unwrap(), "/etc/passwd");
}

#[test]
fn parent_segments_are_resolved_before_the_check() {
    let p = SecurityPolicy::default();
    // `nope` does not exist, so its parent cannot be made canonical.
    let escaping = probe(Some("/tmp/ws"), false, None, None);
    match p.validate_path("nope/../../../etc/passwd", "/tmp/ws", &escaping) {
        Err(SandboxError::OutsideWorkspace { path, workspace }) => {
            assert_eq!(path, "/tmp/ws/nope/../../../etc/passwd");
            assert_eq!(workspace, "/tmp/ws");
        }
        other => panic!("unexpected: {:?}", other),
    }
    let inside = probe(Some("/tmp/ws"), false, None, None);
    // An accepted path is returned as it was checked, its segments left as written.
    assert_eq!(p.validate_path("nope/../a.txt", "/tmp/ws", &inside).unwrap(), "/tmp/ws/nope/../a.txt");
    assert_eq!(p.validate_path("m/../x", "/w", &probe(Some("/w"), false, None, None)).unwrap(), "/w/m/../x");
    assert_eq!(p.validate_path("./b//c.txt", "/tmp/ws", &inside).unwrap(), "/tmp/ws/./b/c.txt");
    // A relative workspace that cannot be made canonical: a leading `..` is refused.
    let relative = probe(None, false, None, None);
    assert!(p.validate_path("../x", "ws", &relative).is_err());
    assert_eq!(nanobot_rs::paths::resolve("/../a/./b/../c"), "/a/c");
    assert_eq!(nanobot_rs::paths::resolve("../a/../../b"), "../../b");
}
