//! Preparing a conversation before a turn, and the reply that follows it.
use vstd::prelude::*;
use crate::bus::{InboundMessage, OutboundMessage};
use crate::security::context_governance::{budget_of, costs_fit, governed, ContextGovernance};
use crate::session::compactor::{compacted_messages, compacts, SessionCompactor};
use crate::session::{lemma_mviews_push, mviews, MessageView, Session, SessionMessage};
use crate::text::{cat, i64_to_string, opt_chars, signed_decimal};

verus! {

/// The conversation as a turn starts from it: a system prompt added to an empty session.
pub open spec fn seeded(ms: Seq<MessageView>, prompt: Option<Seq<char>>, now: i64) -> Seq<MessageView> {
    if ms.len() == 0 && prompt is Some {
        ms.push(
            MessageView {
                role: "system"@,
                content: prompt,
                name: None,
                tool_calls: None,
                tool_call_id: None,
                timestamp: now,
            },
        )
    } else {
        ms
    }
}

/// The conversation after compaction (more than 20 messages; the last 8 non-system kept).
pub open spec fn compacted(ms: Seq<MessageView>, now: i64) -> Seq<MessageView> {
    if compacts(ms, 20, 8) {
        compacted_messages(ms, 8, now)
    } else {
        ms
    }
}

/// The default prompt budget: 128000 less 4096.
pub open spec fn default_budget() -> nat {
    123_904
}

/// Prepares a session for a turn at `now`: an empty session receives the system prompt
/// (when given); a long session is compacted (beyond 20 messages, keeping the last 8); then
/// the conversation is trimmed to the default prompt budget. Returns `false`, after the
/// compaction, when the token estimates do not fit `usize` arithmetic, in which case the
/// trimming is not done.
pub fn prepare_session_at(session: &mut Session, system_prompt: Option<String>, now: i64) -> (ok: bool)
    ensures
        ({
            let s0 = seeded(mviews(old(session).messages@), opt_chars(system_prompt), now);
            let s1 = compacted(s0, now);
            &&& ok == costs_fit(s1)
            &&& ok ==> mviews(final(session).messages@) == governed(s1, default_budget())
            &&& !ok ==> mviews(final(session).messages@) == s1
        }),
        final(session).session_key == old(session).session_key,
{
    let ghost sp = opt_chars(system_prompt);
    if session.messages.len() == 0 {
        match system_prompt {
            Some(p) => {
                let m = SessionMessage::plain("system", Some(p), now);
                proof {
                    lemma_mviews_push(session.messages@, m);
                }
                session.messages.push(m);
            },
            None => {},
        }
    }
    let ghost s0 = mviews(session.messages@);
    let _ = SessionCompactor::maybe_compact_at(session, 20, 8, now);
    if !ContextGovernance::costs_within_limits(session.messages.as_slice()) {
        return false;
    }
    let gov = ContextGovernance::default();
    assert(budget_of(gov) == default_budget());
    let governed_msgs = gov.govern_messages(session.messages.as_slice());
    session.messages = governed_msgs;
    true
}

/// Whether a session needs a system prompt (it has no message yet).
pub fn needs_system_prompt(session: &Session) -> (r: bool)
    ensures
        r == (session.messages@.len() == 0),
{
    session.messages.len() == 0
}

/// The reply to an inbound message at `now`: id `out_<now>`, same session and channel, to the
/// sender, answering the message's id, final.
pub fn reply_message(msg: &InboundMessage, reply: String, now: i64) -> (o: OutboundMessage)
    ensures
        o.id@ == "out_"@ + signed_decimal(now as int),
        o.session_key == msg.session_key,
        o.channel == msg.channel,
        o.recipient_id == msg.sender_id,
        o.content == reply,
        o.reply_to_id == Some(msg.id),
        !o.is_intermediate,
        o.created_at == now,
{
    let n = i64_to_string(now);
    OutboundMessage {
        id: cat("out_", n.as_str()),
        session_key: msg.session_key.clone(),
        channel: msg.channel.clone(),
        recipient_id: msg.sender_id.clone(),
        content: reply,
        reply_to_id: Some(msg.id.clone()),
        is_intermediate: false,
        created_at: now,
    }
}

} // verus!
