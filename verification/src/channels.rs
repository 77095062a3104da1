//! The channels' messages: what the command line and Feishu hand to the agent.
use vstd::prelude::*;
use vstd::utf8::{encode_utf8, is_char_boundary};
use crate::bus::{InboundMessage, OutboundMessage, StreamEvent};
use crate::text::{
    byte_len, byte_prefix, cat, i64_to_string, owned, prefix_bytes, signed_decimal, str_eq,
    trim, trimmed,
};

verus! {

/// The command-line channel.
pub struct CliChannel;

/// The Feishu channel.
pub struct FeishuChannel;

/// How the command line shows an event of a turn.
#[derive(Debug, Clone)]
pub enum CliDisplay {
    /// Reasoning, in grey on standard error.
    Reasoning(String),
    /// Reply text on standard output.
    Text(String),
    /// A tool starting, on its own line on standard error.
    ToolStarted(String),
    /// A failed tool's output, in red on standard error.
    ToolFailed(String),
    /// A preview of a tool's output, in green on standard error.
    ToolDone(String),
    /// The turn is over: end the line and stop listening.
    Finished,
    /// The turn failed with this error: report it and stop listening.
    Failed(String),
}

/// How many bytes of a tool's output the command line previews.
pub const PREVIEW_LIMIT: usize = 200;

/// Where a tool's output can be cut for its preview: it fits, or the limit falls on a
/// character boundary.
pub open spec fn previewable(output: Seq<char>) -> bool {
    byte_len(output) > PREVIEW_LIMIT ==> is_char_boundary(encode_utf8(output), PREVIEW_LIMIT as int)
}

/// The preview of a tool's output: its first 200 bytes and `...` when longer, trimmed.
pub open spec fn preview_text(output: Seq<char>) -> Seq<char> {
    trimmed(
        if byte_len(output) > PREVIEW_LIMIT {
            byte_prefix(output, PREVIEW_LIMIT as int) + "..."@
        } else {
            output
        },
    )
}

/// Whether every event that the command line previews can be cut for its preview.
pub open spec fn displayable(e: StreamEvent) -> bool {
    e matches StreamEvent::ToolCallCompleted { output, is_error, .. } ==> is_error || previewable(output@)
}

impl CliChannel {
    /// The session of the command line.
    pub fn session_key() -> (r: String)
        ensures
            r@ == "cli:default"@,
    {
        owned("cli:default")
    }

    /// The message for a prompt typed at `now`: id `cli_<now>`, session `cli:default`, channel
    /// `cli`, from `user` (`LocalUser`).
    pub fn inbound_at(prompt: &str, now: i64) -> (m: InboundMessage)
        ensures
            m.id@ == "cli_"@ + signed_decimal(now as int),
            m.session_key@ == "cli:default"@,
            m.channel@ == "cli"@,
            m.sender_id@ == "user"@,
            m.sender_name matches Some(n) && n@ == "LocalUser"@,
            m.content@ == prompt@,
            m.media_urls@.len() == 0,
            m.created_at == now,
    {
        let n = i64_to_string(now);
        InboundMessage {
            id: cat("cli_", n.as_str()),
            session_key: Self::session_key(),
            channel: owned("cli"),
            sender_id: owned("user"),
            sender_name: Some(owned("LocalUser")),
            content: owned(prompt),
            media_urls: Vec::new(),
            created_at: now,
        }
    }

    /// Whether an outbound message answers the command line's session.
    pub fn is_reply(out: &OutboundMessage) -> (r: bool)
        ensures
            r == (out.session_key@ == "cli:default"@),
    {
        str_eq(out.session_key.as_str(), "cli:default")
    }

    /// The preview of a successful tool's output: its first 200 bytes followed by `...` when
    /// it is longer, trimmed.
    pub fn preview(output: &str) -> (r: String)
        requires
            previewable(output@),
        ensures
            r@ == preview_text(output@),
    {
        if output.len() > PREVIEW_LIMIT {
            let head = prefix_bytes(output, PREVIEW_LIMIT);
            let p = cat(head.as_str(), "...");
            trim(p.as_str())
        } else {
            trim(output)
        }
    }

    /// How the command line shows an event of a turn.
    pub fn display(e: &StreamEvent) -> (r: CliDisplay)
        requires
            displayable(*e),
        ensures
            match *e {
                StreamEvent::ReasoningDelta(t) => r == CliDisplay::Reasoning(t),
                StreamEvent::TextDelta(t) => r == CliDisplay::Text(t),
                StreamEvent::ToolCallStarted { name, .. } => r == CliDisplay::ToolStarted(name),
                StreamEvent::ToolCallCompleted { output, is_error, .. } => if is_error {
                    r == CliDisplay::ToolFailed(output)
                } else {
                    r matches CliDisplay::ToolDone(p) && p@ == preview_text(output@)
                },
                StreamEvent::TurnCompleted { .. } => r is Finished,
                StreamEvent::TurnFailed(m) => r == CliDisplay::Failed(m),
            },
    {
        match e {
            StreamEvent::ReasoningDelta(t) => CliDisplay::Reasoning(t.clone()),
            StreamEvent::TextDelta(t) => CliDisplay::Text(t.clone()),
            StreamEvent::ToolCallStarted { name, .. } => CliDisplay::ToolStarted(name.clone()),
            StreamEvent::ToolCallCompleted { output, is_error, .. } => {
                if *is_error {
                    CliDisplay::ToolFailed(output.clone())
                } else {
                    CliDisplay::ToolDone(Self::preview(output.as_str()))
                }
            },
            StreamEvent::TurnCompleted { .. } => CliDisplay::Finished,
            StreamEvent::TurnFailed(m) => CliDisplay::Failed(m.clone()),
        }
    }

    /// Whether a typed line ends the session.
    pub fn is_exit(line: &str) -> (r: bool)
        ensures
            r == (line@ == "exit"@ || line@ == "quit"@),
    {
        str_eq(line, "exit") || str_eq(line, "quit")
    }
}

impl FeishuChannel {
    /// The message for a Feishu chat message received at `now`: id `fs_<now>`, session
    /// `feishu:<chat id>`, channel `feishu`.
    pub fn inbound_at(chat_id: &str, sender_id: &str, text: &str, now: i64) -> (m: InboundMessage)
        ensures
            m.id@ == "fs_"@ + signed_decimal(now as int),
            m.session_key@ == "feishu:"@ + chat_id@,
            m.channel@ == "feishu"@,
            m.sender_id@ == sender_id@,
            m.sender_name is None,
            m.content@ == text@,
            m.media_urls@.len() == 0,
            m.created_at == now,
    {
        let n = i64_to_string(now);
        InboundMessage {
            id: cat("fs_", n.as_str()),
            session_key: cat("feishu:", chat_id),
            channel: owned("feishu"),
            sender_id: owned(sender_id),
            sender_name: None,
            content: owned(text),
            media_urls: Vec::new(),
            created_at: now,
        }
    }

    /// The address that grants a tenant access token.
    pub fn token_url() -> (r: String)
        ensures
            r@ == "https://open.feishu.cn/open-apis/auth/v3/tenant_access_token/internal"@,
    {
        owned("https://open.feishu.cn/open-apis/auth/v3/tenant_access_token/internal")
    }

    /// The address that sends a message to a receiver identified by `receive_id_type`.
    pub fn messages_url(receive_id_type: &str) -> (r: String)
        ensures
            r@ == "https://open.feishu.cn/open-apis/im/v1/messages?receive_id_type="@ + receive_id_type@,
    {
        cat("https://open.feishu.cn/open-apis/im/v1/messages?receive_id_type=", receive_id_type)
    }

    /// Whether an outbound message goes to Feishu.
    pub fn is_for_feishu(out: &OutboundMessage) -> (r: bool)
        ensures
            r == (out.channel@ == "feishu"@),
    {
        str_eq(out.channel.as_str(), "feishu")
    }
}

} // verus!
