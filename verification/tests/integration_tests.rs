use nanobot_rs::session::compactor::SessionCompactor;
use nanobot_rs::session::store::{decode_key, JsonlStore};
use nanobot_rs::session::{Session, SessionMessage};
use nanobot_rs::tools::builtin::fs::{EditFileTool, ReadFileTool};
use nanobot_rs::tools::builtin::patch::{ApplyPatchTool, PatchOutcome};

fn now_ms() -> i64 {
    chrono::Utc::now().timestamp_millis()
}

fn message(role: &str, content: &str) -> SessionMessage {
    SessionMessage {
        role: role.to_string(),
        content: Some(content.to_string()),
        name: None,
        tool_calls: None,
        tool_call_id: None,
        timestamp: now_ms(),
    }
}

#[test]
fn test_session_compactor_user_boundary_alignment() {
    let mut session = Session::new("test:compact");

    session.messages.push(message("system", "system prompt"));

    for i in 0..15 {
        session.messages.push(message("user", &format!("user message {}", i)));
        session.messages.push(message("assistant", &format!("bot reply {}", i)));
    }

    let compacted = SessionCompactor::maybe_compact(&mut session, 10, 4);
    assert!(compacted);

    assert_eq!(session.messages[0].role, "system");
    assert_eq!(session.messages[1].role, "system");
    assert_eq!(session.messages[1].name.as_deref(), Some("compact_summary"));

    assert_eq!(session.messages[2].role, "user");
}

#[test]
fn test_builtin_filesystem_and_patch_tools() {
    // The file's text is kept in memory here; the tools' logic is what is exercised.
    let written = "line 1\nline 2\nline 3".to_string();

    let read_res = ReadFileTool::render(&written, None, None);
    assert!(!read_res.is_error);
    assert!(read_res.output.contains("line 1"));

    let edited = EditFileTool::edit(&written, "line 2", "line two modified").expect("old text present");
    assert_eq!(edited, "line 1\nline two modified\nline 3");

    let patch = "@@ -1,3 +1,3 @@\n line 1\n-line two modified\n+line two patched\n line 3";
    let patched = match ApplyPatchTool::apply(&edited, patch) {
        PatchOutcome::Applied(t) => t,
        _ => panic!("the patch should apply"),
    };

    let verify_res = ReadFileTool::render(&patched, None, None);
    assert!(verify_res.output.contains("line two patched"));
}

#[test]
fn test_jsonl_store_atomic_save_and_list() {
    let store = JsonlStore::with_base_dir("/tmp/sessions");
    let path = store.file_path("test:user_1");
    assert_eq!(path, "/tmp/sessions/test__user_1.jsonl");

    // Two saved records, as the file holds them, one per line.
    let content = "{\"role\":\"user\",\"content\":\"你好\"}\n{\"role\":\"assistant\",\"content\":\"你好！我是nanobot-rs\"}\n";
    let records = JsonlStore::records(content);
    assert_eq!(records.len(), 2);

    assert_eq!(decode_key("test__user_1"), "test:user_1");
}
