use nanobot_rs::cron::CronJob;
use nanobot_rs::provider::anthropic::{AnthropicBlock, AnthropicProvider, AnthropicReply, AnthropicStreamEvent};
use nanobot_rs::provider::openai::{OpenAiDelta, OpenAiProvider, OpenAiReply, OpenAiToolCall, OpenAiToolCallChunk};
use nanobot_rs::provider::{AnthropicPrompt, Endpoint, ProviderStreamEvent};
use nanobot_rs::session::store::SessionSummaryInfo;
use nanobot_rs::session::SessionMessage;
use nanobot_rs::tools::builtin::cron::{CronCreateTool, CronDeleteTool, CronListTool};
use nanobot_rs::tools::builtin::sessions_tool::{SessionHistoryTool, SessionListTool};
use nanobot_rs::tools::builtin::spawn::SpawnTool;
use nanobot_rs::tools::mcp::{McpToolDefinition, McpToolWrapper, RequestIds};

#[test]
fn endpoints_drop_trailing_slashes() {
    let e = Endpoint::new("custom", "https://api.example.com/v1//", "sk");
    assert_eq!(e.base_url, "https://api.example.com/v1");
    assert_eq!(e.chat_url(), "https://api.example.com/v1/chat/completions");
    assert_eq!(e.messages_url(), "https://api.example.com/v1/v1/messages");
    assert_eq!(e.bearer().as_deref(), Some("Bearer sk"));
    assert!(Endpoint::new("x", "u", "").bearer().is_none());
}

#[test]
fn anthropic_prompt_splits_system_text() {
    let ms = vec![
        SessionMessage::plain("system", Some("first".to_string()), 0),
        SessionMessage::plain("user", Some("hi".to_string()), 0),
        SessionMessage::plain("system", Some("second".to_string()), 0),
        SessionMessage::plain("assistant", None, 0),
        SessionMessage::plain("tool", Some("out".to_string()), 0),
    ];
    let p = AnthropicPrompt::from_messages(&ms);
    assert_eq!(p.system.as_deref(), Some("second"));
    let roles: Vec<(&str, &str)> = p.messages.iter().map(|m| (m.role.as_str(), m.content.as_str())).collect();
    assert_eq!(roles, vec![("user", "hi"), ("assistant", ""), ("user", "out")]);
}

#[test]
fn openai_stream_deltas_become_events() {
    assert!(OpenAiProvider::is_done("  [DONE] \n"));
    assert!(!OpenAiProvider::is_done("{}"));
    assert!(matches!(
        OpenAiProvider::done_event(),
        ProviderStreamEvent::Completed { finish_reason: Some(f), total_tokens: None } if f == "stop"
    ));
    let d = OpenAiDelta {
        reasoning_content: None,
        reasoning: Some("think".to_string()),
        content: Some("hi".to_string()),
        tool_calls: vec![OpenAiToolCallChunk { index: None, id: Some("c".to_string()), name: None, arguments: "{\"a\"".to_string() }],
        finish_reason: Some("tool_calls".to_string()),
        total_tokens: Some(12),
    };
    let ev = OpenAiProvider::delta_events(&d);
    assert_eq!(ev.len(), 4);
    assert!(matches!(&ev[0], ProviderStreamEvent::ReasoningDelta(t) if t == "think"));
    assert!(matches!(&ev[1], ProviderStreamEvent::ContentDelta(t) if t == "hi"));
    assert!(matches!(&ev[2], ProviderStreamEvent::ToolCallDelta { index: 0, id: Some(i), name: None, arguments } if i == "c" && arguments == "{\"a\""));
    assert!(matches!(&ev[3], ProviderStreamEvent::Completed { finish_reason: Some(f), total_tokens: Some(12) } if f == "tool_calls"));
}

#[test]
fn openai_replies_become_chat_responses() {
    let m = OpenAiReply {
        content: None,
        reasoning_content: Some("r".to_string()),
        reasoning: Some("ignored".to_string()),
        tool_calls: Some(vec![OpenAiToolCall { id: None, call_type: None, name: Some("bash".to_string()), arguments: "{}".to_string() }]),
        finish_reason: Some("tool_calls".to_string()),
        total_tokens: Some(30),
    };
    let r = OpenAiProvider::reply(&m);
    assert_eq!(r.reasoning_content.as_deref(), Some("r"));
    let calls = r.tool_calls.expect("one call");
    assert_eq!(calls[0].id, "");
    assert_eq!(calls[0].call_type, "function");
    assert_eq!(calls[0].function.name, "bash");
    assert_eq!(r.total_tokens, Some(30));
    let empty = OpenAiReply { tool_calls: Some(vec![]), ..m };
    assert!(OpenAiProvider::reply(&empty).tool_calls.is_none());
}

#[test]
fn anthropic_replies_and_stream_events() {
    let r = AnthropicReply {
        blocks: Some(vec![
            AnthropicBlock::Text(Some("a".to_string())),
            AnthropicBlock::ToolUse { id: Some("t1".to_string()), name: Some("bash".to_string()), input: "{\"command\":\"ls\"}".to_string() },
            AnthropicBlock::Text(Some("b".to_string())),
            AnthropicBlock::Other,
        ]),
        input_tokens: Some(10),
        output_tokens: None,
        stop_reason: Some("tool_use".to_string()),
    };
    let c = AnthropicProvider::reply(&r);
    assert_eq!(c.content.as_deref(), Some("b"));
    let calls = c.tool_calls.expect("a call");
    assert_eq!(calls.len(), 1);
    assert_eq!(calls[0].id, "t1");
    assert_eq!(calls[0].function.arguments, "{\"command\":\"ls\"}");
    assert_eq!(c.total_tokens, Some(10));
    assert_eq!(c.finish_reason.as_deref(), Some("tool_use"));

    let (e, stop) = AnthropicProvider::stream_event(&AnthropicStreamEvent::ContentBlockDelta { text: None, thinking: Some("t".to_string()) });
    assert!(!stop);
    assert!(matches!(e, Some(ProviderStreamEvent::ReasoningDelta(t)) if t == "t"));
    let (e, stop) = AnthropicProvider::stream_event(&AnthropicStreamEvent::MessageStop);
    assert!(stop);
    assert!(matches!(e, Some(ProviderStreamEvent::Completed { finish_reason: Some(f), .. }) if f == "stop"));
    let (e, stop) = AnthropicProvider::stream_event(&AnthropicStreamEvent::Other);
    assert!(!stop && e.is_none());
}

#[test]
fn spawn_tool_sessions_and_reports() {
    assert_eq!(SpawnTool::sub_session_key(1700), "subagent_1700");
    let s = SpawnTool::sub_session_at(1700);
    assert_eq!(s.session_key, "subagent_1700");
    assert!(s.messages.is_empty());
    let r = SpawnTool::finished("查资料", "done");
    assert!(!r.is_error);
    assert_eq!(r.output, "=== 子智能体 [查资料] 执行完成 ===\n结论: done");
}

#[test]
fn session_tools_answers() {
    assert_eq!(SessionListTool::answer(&vec![]).unwrap().output, "当前暂无已持久化的历史会话");
    let list = vec![SessionSummaryInfo { session_key: "cli:default".to_string(), message_count: 4, updated_at: 0, file_size_bytes: 512 }];
    assert_eq!(
        SessionListTool::answer(&list).unwrap().output,
        "【已持久化会话清单】:\n- [cli:default] 消息轮数: 4 轮 | 最后活跃: 1970-01-01 00:00:00 | 文件大小: 512 字节\n"
    );
    let bad = vec![SessionSummaryInfo { session_key: "x".to_string(), message_count: 0, updated_at: i64::MAX, file_size_bytes: 0 }];
    assert!(SessionListTool::answer(&bad).is_none());
    assert_eq!(SessionHistoryTool::empty_answer("k").output, "会话 [k] 无历史消息");
}

#[test]
fn cron_tool_answers() {
    let job = CronJob {
        id: "cron_0".to_string(),
        title: "t".to_string(),
        prompt: "p".to_string(),
        interval_minutes: 5,
        enabled: true,
        last_run: None,
        next_run: 300_000,
    };
    assert_eq!(
        CronCreateTool::answer(&job).unwrap().output,
        "已成功创建定时任务 [cron_0] 每 5 分钟自动执行一次。下次执行时间: 1970-01-01 00:05:00 UTC"
    );
    assert_eq!(CronCreateTool::requested_interval(None), 60);
    assert_eq!(CronCreateTool::requested_interval(Some(3)), 3);
    assert_eq!(CronListTool::empty_answer().output, "当前无配置中的定时任务");
    let ok = CronDeleteTool::answer("cron_0", true);
    assert!(!ok.is_error);
    assert_eq!(ok.output, "已成功删除任务 [cron_0]");
    let missing = CronDeleteTool::answer("cron_9", false);
    assert!(missing.is_error);
    assert_eq!(missing.output, "未找到 ID 为 [cron_9] 的任务");
}

#[test]
fn mcp_results_and_ids() {
    let mut ids = RequestIds::new();
    assert_eq!(ids.take(), 1);
    assert_eq!(ids.take(), 2);
    let texts = vec!["a".to_string(), "b".to_string()];
    assert_eq!(McpToolWrapper::content_text(&texts), "a\nb");
    assert_eq!(McpToolWrapper::content_text(&vec!["".to_string(), "b".to_string()]), "b");
    let r = McpToolWrapper::call_result(&texts, true, "{}");
    assert!(r.is_error);
    assert_eq!(r.output, "a\nb");
    assert_eq!(McpToolWrapper::call_result(&vec![], false, "{\n  \"x\": 1\n}").output, "{\n  \"x\": 1\n}");
    let w = McpToolWrapper::new(McpToolDefinition { name: "echo".to_string(), description: None, input_schema: "{}".to_string() });
    assert_eq!(w.name, "echo");
    assert_eq!(w.description, "");
}

#[test]
fn times_chrono_cannot_write_give_no_answer() {
    let job = CronJob {
        id: "cron_x".to_string(),
        title: "t".to_string(),
        prompt: "p".to_string(),
        interval_minutes: 1,
        enabled: true,
        last_run: None,
        next_run: i64::MAX,
    };
    assert!(CronCreateTool::answer(&job).is_none());
    assert!(nanobot_rs::memory::MemoryStore::entry_at(i64::MAX, "x").is_none());
}
