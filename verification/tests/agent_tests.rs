use nanobot_rs::agent::context::{ContextBuilder, PromptEnvironment};
use nanobot_rs::agent::loop_agent::{needs_system_prompt, prepare_session_at, reply_message};
use nanobot_rs::agent::runner::{AgentRunner, TurnStep};
use nanobot_rs::bus::{InboundMessage, StreamEvent};
use nanobot_rs::provider::fallback::{ChatDecision, FallbackProvider};
use nanobot_rs::provider::ChatResponse;
use nanobot_rs::session::{FunctionCall, Session, SessionMessage, ToolCall};
use nanobot_rs::tools::ToolResult;
use nanobot_rs::config::ModelConfig;

fn call(id: &str, name: &str) -> ToolCall {
    ToolCall {
        id: id.to_string(),
        call_type: "function".to_string(),
        function: FunctionCall { name: name.to_string(), arguments: "{}".to_string() },
    }
}

fn reply(content: Option<&str>, calls: Option<Vec<ToolCall>>) -> ChatResponse {
    ChatResponse {
        content: content.map(|s| s.to_string()),
        reasoning_content: None,
        tool_calls: calls,
        finish_reason: None,
        total_tokens: Some(7),
    }
}

#[test]
fn a_turn_without_tools_finishes_with_the_reply() {
    let mut s = Session::new_at("k", 1);
    let (mut runner, step) = AgentRunner::begin_turn_at(&mut s, "hi", 5, 10);
    assert!(matches!(step, TurnStep::CallModel));
    assert_eq!(s.messages.len(), 1);
    assert_eq!(s.messages[0].role, "user");
    assert_eq!(s.messages[0].content.as_deref(), Some("hi"));
    assert_eq!(s.messages[0].timestamp, 10);

    let (events, step) = runner.on_model_reply_at(&mut s, &reply(Some("hello"), None), 11);
    match step {
        TurnStep::Finished(t) => assert_eq!(t, "hello"),
        _ => panic!("should finish"),
    }
    assert_eq!(events.len(), 2);
    assert!(matches!(&events[0], StreamEvent::TextDelta(t) if t == "hello"));
    assert!(matches!(events[1], StreamEvent::TurnCompleted { total_tokens: Some(7) }));
    assert_eq!(s.messages.len(), 2);
    assert_eq!(s.messages[1].role, "assistant");
}

#[test]
fn tool_calls_are_answered_in_order() {
    let mut s = Session::new_at("k", 1);
    let (mut runner, _) = AgentRunner::begin_turn_at(&mut s, "do it", 2, 10);
    let calls = vec![call("c1", "bash"), call("c2", "read_file")];
    let (events, step) = runner.on_model_reply_at(&mut s, &reply(None, Some(calls)), 11);
    assert!(matches!(&step, TurnStep::RunTool(c) if c.id == "c1"));
    assert!(matches!(&events[0], StreamEvent::ToolCallStarted { call_id, name } if call_id == "c1" && name == "bash"));
    assert_eq!(s.messages[1].tool_calls.as_ref().map(|v| v.len()), Some(2));

    let (events, step) = runner.on_tool_result_at(&mut s, ToolResult::success("out1".to_string()), 12);
    assert!(matches!(&step, TurnStep::RunTool(c) if c.id == "c2"));
    assert_eq!(events.len(), 2);
    assert_eq!(s.messages[2].role, "tool");
    assert_eq!(s.messages[2].tool_call_id.as_deref(), Some("c1"));
    assert_eq!(s.messages[2].name.as_deref(), Some("bash"));
    assert_eq!(s.messages[2].content.as_deref(), Some("out1"));

    let (events, step) = runner.on_tool_result_at(&mut s, ToolResult::error("bad".to_string()), 13);
    assert!(matches!(step, TurnStep::CallModel));
    assert!(matches!(&events[0], StreamEvent::ToolCallCompleted { call_id, is_error: true, .. } if call_id == "c2"));
    assert_eq!(s.messages[3].tool_call_id.as_deref(), Some("c2"));

    // The second model call was the last one allowed; another tool request ends the turn.
    let (_, step) = runner.on_model_reply_at(&mut s, &reply(Some("partial"), Some(vec![call("c3", "bash")])), 14);
    assert!(matches!(step, TurnStep::RunTool(_)));
    let (_, step) = runner.on_tool_result_at(&mut s, ToolResult::success("x".to_string()), 15);
    match step {
        TurnStep::Finished(t) => assert_eq!(t, "partial"),
        _ => panic!("the iteration limit ends the turn"),
    }
}

#[test]
fn zero_turns_finish_at_once() {
    let mut s = Session::new_at("k", 1);
    let (_, step) = AgentRunner::begin_turn_at(&mut s, "hi", 0, 10);
    match step {
        TurnStep::Finished(t) => assert_eq!(t, ""),
        _ => panic!("no model call is allowed"),
    }
}

#[test]
fn new_sessions_get_the_system_prompt() {
    let mut s = Session::new_at("k", 1);
    assert!(needs_system_prompt(&s));
    assert!(prepare_session_at(&mut s, Some("SYS".to_string()), 5));
    assert_eq!(s.messages.len(), 1);
    assert_eq!(s.messages[0].role, "system");
    assert_eq!(s.messages[0].content.as_deref(), Some("SYS"));
    assert!(!needs_system_prompt(&s));
    // A session that has messages keeps them as they are.
    assert!(prepare_session_at(&mut s, Some("OTHER".to_string()), 6));
    assert_eq!(s.messages.len(), 1);
    assert_eq!(s.messages[0].content.as_deref(), Some("SYS"));
}

#[test]
fn long_sessions_are_compacted_before_a_turn() {
    let mut s = Session::new_at("k", 1);
    s.messages.push(SessionMessage::plain("system", Some("SYS".to_string()), 0));
    for i in 0..12 {
        s.messages.push(SessionMessage::plain("user", Some(format!("u{}", i)), 0));
        s.messages.push(SessionMessage::plain("assistant", Some(format!("a{}", i)), 0));
    }
    assert!(prepare_session_at(&mut s, None, 99));
    // first system message, summary, then the last 8 non-system messages from a user message on
    assert_eq!(s.messages.len(), 10);
    assert_eq!(s.messages[1].name.as_deref(), Some("compact_summary"));
    assert_eq!(s.messages[1].timestamp, 99);
    assert_eq!(s.messages[2].content.as_deref(), Some("u8"));
}

#[test]
fn replies_answer_the_inbound_message() {
    let msg = InboundMessage {
        id: "m1".to_string(),
        session_key: "cli:default".to_string(),
        channel: "cli".to_string(),
        sender_id: "user".to_string(),
        sender_name: None,
        content: "hi".to_string(),
        media_urls: vec![],
        created_at: 0,
    };
    let out = reply_message(&msg, "hello".to_string(), 42);
    assert_eq!(out.id, "out_42");
    assert_eq!(out.session_key, "cli:default");
    assert_eq!(out.recipient_id, "user");
    assert_eq!(out.reply_to_id.as_deref(), Some("m1"));
    assert!(!out.is_intermediate);
    assert_eq!(out.content, "hello");
}

#[test]
fn system_prompt_layout() {
    let env = PromptEnvironment {
        os: "linux".to_string(),
        arch: "x86_64".to_string(),
        date: "2024-05-01".to_string(),
        soul: "SOUL".to_string(),
        tool_contract: "TOOLS".to_string(),
    };
    let p = ContextBuilder::build_system_prompt(&env, "/ws", "  ", "SKILLS");
    assert_eq!(
        p,
        "You are nanobot-rs, an ultra-lightweight, high-performance personal AI agent rewritten in Rust.\nCurrent Platform: linux x86_64\nCurrent Date: 2024-05-01\nCurrent Workspace: /ws\n\n# Core Persona & Guidelines\nSOUL\n\n# Tool Contract\nTOOLS\n\n# Long-term Memories\n（暂无持久化记忆）\n\nSKILLS\n\nAlways be direct, action-oriented, and concise. When asked to perform tasks, prefer dedicated tools over talking."
    );
    let q = ContextBuilder::build_system_prompt(&env, "/ws", "- fact", "");
    assert!(q.contains("# Long-term Memories\n- fact\n\n"));
}

#[test]
fn fallbacks_are_tried_in_order_then_given_up() {
    let models = vec![
        ModelConfig { default: "m1".to_string(), provider: "p".to_string(), base_url: "u".to_string(), api_key: String::new() },
        ModelConfig { default: "m2".to_string(), provider: "p".to_string(), base_url: "u".to_string(), api_key: String::new() },
    ];
    let mut chain = FallbackProvider::from_models(&models);
    assert_eq!(chain.after_failure(), Some((0, "m1".to_string())));
    assert_eq!(chain.after_failure(), Some((1, "m2".to_string())));
    assert_eq!(chain.after_failure(), None);
    assert_eq!(chain.after_failure(), None);
}

#[test]
fn a_fallback_chat_answers_the_first_success_or_the_primary_error() {
    let mut chain = FallbackProvider::new(vec!["m1".to_string(), "m2".to_string()]);
    let mut kept: Option<String> = None;
    // The primary succeeds: its reply is the answer and nothing else is tried.
    assert!(matches!(chain.on_attempt::<u32, String>(Ok(7), &mut kept), ChatDecision::Reply(7)));
    assert_eq!(chain.tried, 0);
    // The primary fails, then m1 succeeds.
    assert!(matches!(chain.on_attempt::<u32, String>(Err("p".to_string()), &mut kept),
        ChatDecision::Try { index: 0, ref model } if model == "m1"));
    assert!(matches!(chain.on_attempt::<u32, String>(Ok(9), &mut kept), ChatDecision::Reply(9)));

    // Everything fails: the primary's error is the answer.
    let mut chain = FallbackProvider::new(vec!["m1".to_string(), "m2".to_string()]);
    let mut kept: Option<String> = None;
    assert!(matches!(chain.on_attempt::<u32, String>(Err("primary".to_string()), &mut kept), ChatDecision::Try { index: 0, .. }));
    assert!(matches!(chain.on_attempt::<u32, String>(Err("f1".to_string()), &mut kept),
        ChatDecision::Try { index: 1, ref model } if model == "m2"));
    match chain.on_attempt::<u32, String>(Err("f2".to_string()), &mut kept) {
        ChatDecision::Fail(e) => assert_eq!(e, "primary"),
        _ => panic!("every attempt failed"),
    }
}
