use std::sync::Arc;

use nanobot_rs::bus::{OutboundMessage, StreamEvent};
use nanobot_rs::channels::{CliChannel, CliDisplay, FeishuChannel};
use nanobot_rs::clock::{clock_utc, display_utc, minute_utc};
use nanobot_rs::config::loader::{apply_env_overrides, config_path, default_config_path, EnvOverrides};
use nanobot_rs::config::AppConfig;
use nanobot_rs::cron::CronSchedule;
use nanobot_rs::gateway::{completion_id, last_user_prompt, relay, request_session_at, GatewayMessage, RelayAction};
use nanobot_rs::memory::tools::{MemorySaveTool, MemorySearchTool};
use nanobot_rs::memory::MemoryStore;
use nanobot_rs::session::store::{decode_key, encode_key, sort_newest_first, JsonlStore, SessionSummaryInfo};
use nanobot_rs::skills::tool::LoadSkillTool;
use nanobot_rs::skills::{Skill, SkillsManager};
use nanobot_rs::text::trim;
use nanobot_rs::sync::{AssetSyncer, DiffReporter, SyncState, UpstreamCommit, UpstreamTracker};

#[test]
fn config_defaults_and_paths() {
    let c = AppConfig::defaults_for_home(Some("/home/u"));
    assert_eq!(c.model.default, "gemini/gemini-3.8-flash-high");
    assert_eq!(c.model.provider, "custom");
    assert_eq!(c.model.base_url, "https://api.seurl.eu.org/v1");
    assert_eq!(c.agent.max_turns, 50);
    assert_eq!(c.agent.reasoning_effort, "medium");
    assert_eq!(c.tools.exec_timeout, 60);
    assert_eq!(c.tools.workspace, ".");
    assert_eq!(c.session.storage_dir, "/home/u/.nanobot-rs/sessions");
    assert!(!c.channels.feishu.enabled);
    assert_eq!(AppConfig::defaults_for_home(None).session.storage_dir, "./.nanobot-rs/sessions");

    assert_eq!(default_config_path(Some("/home/u")), "/home/u/.nanobot-rs/config.yaml");
    assert_eq!(config_path(Some("/etc/n.yaml"), true, Some("/home/u")), "/etc/n.yaml");
    assert_eq!(config_path(None, true, Some("/home/u")), "nanobot.yaml");
    assert_eq!(config_path(None, false, None), "./.nanobot-rs/config.yaml");
}

#[test]
fn environment_overrides_four_settings() {
    let mut c = AppConfig::defaults_for_home(Some("/h"));
    apply_env_overrides(
        &mut c,
        EnvOverrides {
            api_key: Some("k".to_string()),
            base_url: None,
            model: Some("m".to_string()),
            workspace: Some("/ws".to_string()),
        },
    );
    assert_eq!(c.model.api_key, "k");
    assert_eq!(c.model.base_url, "https://api.seurl.eu.org/v1");
    assert_eq!(c.model.default, "m");
    assert_eq!(c.tools.workspace, "/ws");
    assert_eq!(c.model.provider, "custom");
}

#[test]
fn session_keys_round_trip_through_file_names() {
    let store = JsonlStore::with_base_dir("/s");
    assert_eq!(store.file_path("feishu:oc_1"), "/s/feishu__oc_1.jsonl");
    assert_eq!(store.file_path("a/b c\\d"), "/s/a_b_c_d.jsonl");
    assert_eq!(encode_key("cli:default"), "cli__default");
    assert_eq!(decode_key(&encode_key("cli:default")), "cli:default");
    assert_eq!(store.temp_path("a:b c", 7), "/s/.tmp_a_b_c_7");
    assert_eq!(JsonlStore::records("x\n\n   \ny\r\n").len(), 2);
}

fn info(key: &str, t: i64) -> SessionSummaryInfo {
    SessionSummaryInfo { session_key: key.to_string(), message_count: 1, updated_at: t, file_size_bytes: 10 }
}

#[test]
fn sessions_list_newest_first_and_stable() {
    let sorted = sort_newest_first(vec![info("a", 1), info("b", 3), info("c", 1), info("d", 2)]);
    let keys: Vec<&str> = sorted.iter().map(|s| s.session_key.as_str()).collect();
    assert_eq!(keys, vec!["b", "d", "a", "c"]);
}

#[test]
fn cron_add_fire_and_delete() {
    let mut s = CronSchedule::new();
    let j = s.add_at("t", "p", 0, 1_000);
    assert_eq!(j.id, "cron_1000");
    assert_eq!(j.interval_minutes, 1);
    assert_eq!(j.next_run, 61_000);
    assert!(j.enabled);
    s.add_at("u", "q", 10, 2_000);
    assert!(s.fire_due_at(60_000).is_empty());
    let due = s.fire_due_at(61_000);
    assert_eq!(due.len(), 1);
    assert_eq!(due[0].id, "cron_1000");
    assert_eq!(due[0].last_run, Some(61_000));
    assert_eq!(due[0].next_run, 121_000);
    // Firing again at the same instant finds nothing due.
    assert!(s.fire_due_at(61_000).is_empty());
    let m = due[0].inbound_at(61_000);
    assert_eq!(m.id, "cron_fire_61000");
    assert_eq!(m.session_key, "cron:cron_1000");
    assert_eq!(m.channel, "cron");
    assert_eq!(m.content, "p");
    assert!(s.delete("cron_1000"));
    assert!(!s.delete("cron_1000"));
    assert_eq!(s.jobs.len(), 1);
}

#[test]
fn gateway_prompt_and_relay() {
    let msgs = Some(vec![
        GatewayMessage { role: Some("user".to_string()), content: Some("first".to_string()) },
        GatewayMessage { role: Some("assistant".to_string()), content: Some("a".to_string()) },
        GatewayMessage { role: Some("user".to_string()), content: Some("second".to_string()) },
        GatewayMessage { role: Some("system".to_string()), content: Some("s".to_string()) },
    ]);
    assert_eq!(last_user_prompt(&msgs), "second");
    assert_eq!(last_user_prompt(&None), "Hello");
    let no_text = Some(vec![GatewayMessage { role: Some("user".to_string()), content: None }]);
    assert_eq!(last_user_prompt(&no_text), "Hello");
    assert!(matches!(relay(&StreamEvent::TextDelta("x".to_string())), RelayAction::Content(t) if t == "x"));
    assert!(matches!(relay(&StreamEvent::TurnCompleted { total_tokens: None }), RelayAction::Finish));
    assert!(matches!(
        relay(&StreamEvent::ToolCallStarted { call_id: "c".to_string(), name: "n".to_string() }),
        RelayAction::Skip
    ));
    assert_eq!(completion_id(5), "chatcmpl-5");
    let s = request_session_at(9);
    assert_eq!(s.session_key, "http:temp");
    assert!(s.messages.is_empty());
}

#[test]
fn channel_messages() {
    let m = CliChannel::inbound_at("hi", 3);
    assert_eq!(m.id, "cli_3");
    assert_eq!(m.session_key, "cli:default");
    assert_eq!(m.sender_name.as_deref(), Some("LocalUser"));
    assert!(CliChannel::is_exit("quit"));
    assert!(!CliChannel::is_exit("quitting"));
    let f = FeishuChannel::inbound_at("oc_1", "ou_2", "hello", 4);
    assert_eq!(f.id, "fs_4");
    assert_eq!(f.session_key, "feishu:oc_1");
    assert_eq!(f.sender_id, "ou_2");
    let out = OutboundMessage {
        id: "o".to_string(),
        session_key: "cli:default".to_string(),
        channel: "feishu".to_string(),
        recipient_id: "r".to_string(),
        content: "c".to_string(),
        reply_to_id: None,
        is_intermediate: false,
        created_at: 0,
    };
    assert!(CliChannel::is_reply(&out));
    assert!(FeishuChannel::is_for_feishu(&out));
    assert_eq!(
        FeishuChannel::messages_url("open_id"),
        "https://open.feishu.cn/open-apis/im/v1/messages?receive_id_type=open_id"
    );
}

#[test]
fn command_line_display() {
    let long = "a".repeat(250);
    assert_eq!(CliChannel::preview(&long), format!("{}...", "a".repeat(200)));
    assert_eq!(CliChannel::preview("  ok \n"), "ok");
    let done = StreamEvent::ToolCallCompleted { call_id: "c".to_string(), output: " fine ".to_string(), is_error: false };
    assert!(matches!(CliChannel::display(&done), CliDisplay::ToolDone(p) if p == "fine"));
    let failed = StreamEvent::ToolCallCompleted { call_id: "c".to_string(), output: " bad ".to_string(), is_error: true };
    assert!(matches!(CliChannel::display(&failed), CliDisplay::ToolFailed(p) if p == " bad "));
    assert!(matches!(CliChannel::display(&StreamEvent::TurnFailed("e".to_string())), CliDisplay::Failed(e) if e == "e"));
}

#[test]
fn memory_search_is_case_insensitive() {
    let content = "# 长期记忆库 (Long-term Memories)\n\n- [2024-01-01 10:00] User likes Rust\n- [2024-01-02 11:00] prefers tea\n";
    let found = MemoryStore::search(content, "rust");
    assert_eq!(found, vec!["- [2024-01-01 10:00] User likes Rust".to_string()]);
    assert!(MemoryStore::search(content, "coffee").is_empty());
    assert_eq!(MemoryStore::entry_line("2024-01-01 10:00", "  fact  "), "- [2024-01-01 10:00] fact\n");
    assert_eq!(MemoryStore::entry_at(0, "x").unwrap(), "- [1970-01-01 00:00] x\n");
    assert_eq!(MemoryStore::memory_file("/data"), "/data/memory/MEMORY.md");
    assert_eq!(MemoryStore::initial_text(), "# 长期记忆库 (Long-term Memories)\n\n");
    assert_eq!(MemorySearchTool::found(&vec![]).output, "长期记忆中未找到相关事实");
    assert_eq!(MemorySearchTool::found(&found).output, "- [2024-01-01 10:00] User likes Rust");
    assert_eq!(MemorySaveTool::saved("x").output, "已成功将此事实写入长期记忆: x");
    let store = Arc::new(MemoryStore::at("/data/memory/MEMORY.md"));
    let tool = MemorySaveTool::new(store.clone());
    assert_eq!(tool.store().file_path(), "/data/memory/MEMORY.md");
    let search = MemorySearchTool::new(store);
    assert_eq!(search.store().file_path(), "/data/memory/MEMORY.md");
}

#[test]
fn time_text() {
    assert_eq!(clock_utc(0).unwrap(), "1970-01-01 00:00:00");
    assert_eq!(display_utc(1_000).unwrap(), "1970-01-01 00:00:01 UTC");
    assert_eq!(minute_utc(90_000).unwrap(), "1970-01-01 00:01");
    assert!(clock_utc(i64::MAX).is_none());
}

#[test]
fn skills_are_found_by_name() {
    let k = Skill::from_file(Some("weather".to_string()), "/s/weather/SKILL.md", "# Weather\n\n  Look up the weather.  \nmore");
    assert_eq!(k.name, "weather");
    assert_eq!(k.description, "Look up the weather.");
    let none = Skill::from_file(None, "/SKILL.md", "# only a heading\n");
    assert_eq!(none.name, "unknown");
    assert_eq!(none.description, "无描述");

    let mut m = SkillsManager::new();
    assert_eq!(m.render_system_prompt_section(), "");
    m.add(k);
    let k2 = Skill::from_file(Some("weather".to_string()), "/t/weather/SKILL.md", "Newer text");
    m.add(k2);
    assert_eq!(m.list().len(), 1);
    assert_eq!(m.get("weather").unwrap().description, "Newer text");
    assert!(m.get("cron").is_none());
    assert_eq!(
        m.render_system_prompt_section(),
        "# Available Skills\n\nWhen user requests a matching skill, call `load_skill` to read its full instructions before proceeding:\n\n- **weather**: Newer text\n\n"
    );
    let tool = LoadSkillTool::new(Arc::new(m));
    let r = tool.load("weather");
    assert!(!r.is_error);
    assert_eq!(r.output, "=== Skill: weather ===\n\nNewer text");
    let e = tool.load("cron");
    assert!(e.is_error);
    assert_eq!(e.output, "未找到名为 'cron' 的技能");
}

#[test]
fn upstream_report() {
    let mut state = SyncState::initial("t0".to_string());
    state.record_pull("t1".to_string(), vec!["templates/SOUL.md".to_string()]);
    let commits = vec![UpstreamCommit {
        sha: "0123456789abcdef".to_string(),
        message: "Fix things\n\nlong body".to_string(),
        author: "alice".to_string(),
        date: "2024-05-01T10:00:00Z".to_string(),
    }];
    let r = DiffReporter::render_report(&state, &commits, None);
    assert!(r.starts_with("====================================================\n"));
    assert!(r.contains("* 上游仓库: https://github.com/HKUDS/nanobot\n"));
    assert!(r.contains("* 本地记录上次同步 Commit: 无 (首发版本)\n"));
    assert!(r.contains("* 最新发布 Release Tag: none\n\n"));
    assert!(r.contains(" 1. [0123456] Fix things (by alice, 2024-05-01)\n"));
    assert!(r.contains(" - templates/SOUL.md\n"));
    assert_eq!(AssetSyncer::template_files().len(), 6);
    assert_eq!(
        AssetSyncer::template_url("templates/SOUL.md"),
        "https://raw.githubusercontent.com/HKUDS/nanobot/main/nanobot/templates/SOUL.md"
    );
    assert_eq!(AssetSyncer::template_target("src/agent/templates", "templates/agent/identity.md"), "src/agent/templates/agent/identity.md");
    assert_eq!(
        UpstreamTracker::commits_url(10),
        "https://api.github.com/repos/HKUDS/nanobot/commits?sha=main&per_page=10"
    );
    assert_eq!(UpstreamTracker::with_token(Some("t".to_string())).authorization().as_deref(), Some("Bearer t"));
    assert!(UpstreamTracker::with_token(None).authorization().is_none());
}

#[test]
fn trim_removes_unicode_white_space_at_both_ends() {
    assert_eq!(trim("\u{3000}\t a b \n\u{00A0}"), "a b");
    assert_eq!(trim("  \u{2028} "), "");
    assert_eq!(trim("x"), "x");
    assert_eq!(trim(""), "");
    assert_eq!(trim(" \u{200B}y "), "\u{200B}y");
    let s = "\u{1680} mid\u{2003}dle \u{205F}";
    assert_eq!(trim(s), s.trim());
}

#[test]
fn cron_ticks_fire_a_job_once_per_interval() {
    let mut s = CronSchedule::new();
    s.add_at("t", "p", 2, 0);
    let mut fired_at: Vec<i64> = Vec::new();
    let mut now: i64 = 0;
    while now <= 400_000 {
        for j in s.fire_due_at(now) {
            fired_at.push(j.last_run.unwrap());
        }
        now += 30_000;
    }
    assert_eq!(fired_at, vec![120_000, 240_000, 360_000]);
}

#[test]
fn cron_tick_returns_messages_and_save_flag() {
    let mut s = CronSchedule::new();
    s.add_at("a", "pa", 1, 0);
    s.add_at("b", "pb", 5, 1);
    let (jobs, msgs, save) = s.tick_at(30_000);
    assert!(jobs.is_empty() && msgs.is_empty() && !save);
    let (jobs, msgs, save) = s.tick_at(60_000);
    assert!(save);
    assert_eq!(jobs.len(), 1);
    assert_eq!(msgs.len(), 1);
    assert_eq!(msgs[0].session_key, "cron:cron_0");
    assert_eq!(msgs[0].content, "pa");
    assert_eq!(msgs[0].sender_id, "system_cron");
    assert_eq!(msgs[0].created_at, 60_000);
    assert_eq!(s.jobs[0].next_run, 120_000);
}
