//! Messages and events that travel between channels and the agent.
use vstd::prelude::*;

verus! {

/// A message from a user (or a scheduler) to the agent. `created_at` is in milliseconds since
/// the Unix epoch.
#[derive(Debug, Clone)]
pub struct InboundMessage {
    pub id: String,
    pub session_key: String,
    pub channel: String,
    pub sender_id: String,
    pub sender_name: Option<String>,
    pub content: String,
    pub media_urls: Vec<String>,
    pub created_at: i64,
}

/// A reply from the agent to a channel. `created_at` is in milliseconds since the Unix epoch.
#[derive(Debug, Clone)]
pub struct OutboundMessage {
    pub id: String,
    pub session_key: String,
    pub channel: String,
    pub recipient_id: String,
    pub content: String,
    pub reply_to_id: Option<String>,
    pub is_intermediate: bool,
    pub created_at: i64,
}

/// Progress of a turn, as channels display it.
#[derive(Debug, Clone)]
pub enum StreamEvent {
    TextDelta(String),
    ReasoningDelta(String),
    ToolCallStarted { call_id: String, name: String },
    ToolCallCompleted { call_id: String, output: String, is_error: bool },
    TurnCompleted { total_tokens: Option<usize> },
    TurnFailed(String),
}

} // verus!
