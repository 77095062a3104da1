//! The HTTP gateway's decisions: which prompt a chat request carries, and what each agent
//! event becomes in a streamed answer.
use vstd::prelude::*;
use crate::bus::StreamEvent;
use crate::session::Session;
use crate::text::{cat, i64_to_string, owned, signed_decimal, str_eq};

verus! {

/// What the gateway reads of a request message: its role and content, when they are strings.
#[derive(Debug, Clone)]
pub struct GatewayMessage {
    pub role: Option<String>,
    pub content: Option<String>,
}

/// What a streamed answer does for an agent event.
#[derive(Debug, Clone)]
pub enum RelayAction {
    /// Send a content chunk.
    Content(String),
    /// Send a reasoning chunk.
    Reasoning(String),
    /// Send the final chunk and `[DONE]`, then stop.
    Finish,
    /// Send the error, then stop.
    Fail(String),
    /// Send nothing.
    Skip,
}

/// The last message whose role is `user`, if any.
pub open spec fn last_user(ms: Seq<GatewayMessage>) -> Option<GatewayMessage>
    decreases ms.len(),
{
    if ms.len() == 0 {
        None
    } else if ms.last().role matches Some(r) && r@ == "user"@ {
        Some(ms.last())
    } else {
        last_user(ms.drop_last())
    }
}

/// The message has the role `user`.
pub open spec fn is_user_message(m: GatewayMessage) -> bool {
    m.role matches Some(r) && r@ == "user"@
}

/// The prompt of a request comes from its last user message: when the request has a user
/// message, the prompt is the content of the one at the greatest index (no later message is a
/// user's); when it has none, `last_user` finds nothing and the prompt is `Hello`.
pub proof fn law_prompt_is_last_user_message(ms: Seq<GatewayMessage>)
    ensures
        last_user(ms) matches Some(m) ==> exists|i: int|
            0 <= i < ms.len() && #[trigger] ms[i] == m && is_user_message(ms[i]) && forall|j: int|
                i < j < ms.len() ==> !is_user_message(#[trigger] ms[j]),
        last_user(ms) is None ==> forall|i: int| 0 <= i < ms.len() ==> !is_user_message(#[trigger] ms[i]),
        last_user(ms) is None ==> request_prompt(Some(ms)) == "Hello"@,
        last_user(ms) matches Some(m) ==> request_prompt(Some(ms)) == match m.content {
            Some(c) => c@,
            None => "Hello"@,
        },
    decreases ms.len(),
{
    if ms.len() > 0 {
        let pre = ms.drop_last();
        law_prompt_is_last_user_message(pre);
        if !is_user_message(ms.last()) {
            match last_user(pre) {
                Some(m) => {
                    let i = choose|i: int|
                        0 <= i < pre.len() && #[trigger] pre[i] == m && is_user_message(pre[i])
                            && forall|j: int| i < j < pre.len() ==> !is_user_message(#[trigger] pre[j]);
                    assert(ms[i] == m);
                    assert forall|j: int| i < j < ms.len() implies !is_user_message(#[trigger] ms[j]) by {
                        if j < ms.len() - 1 {
                            assert(ms[j] == pre[j]);
                        }
                    }
                },
                None => {
                    assert forall|i: int| 0 <= i < ms.len() implies !is_user_message(#[trigger] ms[i]) by {
                        if i < ms.len() - 1 {
                            assert(ms[i] == pre[i]);
                        }
                    }
                },
            }
        } else {
            assert(ms[ms.len() - 1] == ms.last());
        }
    }
}

/// The prompt of a request: the content of its last user message, or `Hello` when there is no
/// such message or its content is not text.
pub open spec fn request_prompt(ms: Option<Seq<GatewayMessage>>) -> Seq<char> {
    match ms {
        Some(s) => match last_user(s) {
            Some(m) => match m.content {
                Some(c) => c@,
                None => "Hello"@,
            },
            None => "Hello"@,
        },
        None => "Hello"@,
    }
}

/// The prompt of a chat request (see `request_prompt`).
pub fn last_user_prompt(messages: &Option<Vec<GatewayMessage>>) -> (r: String)
    ensures
        r@ == request_prompt(
            match *messages {
                Some(v) => Some(v@),
                None => None,
            },
        ),
{
    match messages {
        None => owned("Hello"),
        Some(v) => {
            let mut i: usize = v.len();
            let ghost ms = v@;
            assert(ms.take(ms.len() as int) =~= ms);
            while i > 0
                invariant
                    ms == v@,
                    *messages == Some(*v),
                    i <= ms.len(),
                    last_user(ms) == last_user(ms.take(i as int)),
                decreases i,
            {
                proof {
                    assert(ms.take(i as int).drop_last() =~= ms.take(i - 1));
                    assert(ms.take(i as int).last() == ms[i - 1]);
                }
                let m = &v[i - 1];
                let is_user = match &m.role {
                    Some(r) => str_eq(r.as_str(), "user"),
                    None => false,
                };
                if is_user {
                    assert(*m == ms[i - 1]);
                    assert(last_user(ms.take(i as int)) == Some(ms[i - 1]));
                    assert(request_prompt(Some(ms)) == match m.content {
                        Some(c) => c@,
                        None => "Hello"@,
                    });
                    let r = match &m.content {
                        Some(c) => c.clone(),
                        None => owned("Hello"),
                    };
                    assert(r@ == request_prompt(Some(ms)));
                    return r;
                }
                i = i - 1;
            }
            owned("Hello")
        },
    }
}

/// What a streamed answer does for an event.
pub open spec fn relay_of(e: StreamEvent) -> RelayAction {
    match e {
        StreamEvent::TextDelta(t) => RelayAction::Content(t),
        StreamEvent::ReasoningDelta(r) => RelayAction::Reasoning(r),
        StreamEvent::TurnCompleted { .. } => RelayAction::Finish,
        StreamEvent::TurnFailed(e) => RelayAction::Fail(e),
        _ => RelayAction::Skip,
    }
}

/// What a streamed answer does for an event: text and reasoning are forwarded, a completed
/// turn finishes the answer, a failed one reports the error; tool events are not forwarded.
pub fn relay(e: &StreamEvent) -> (r: RelayAction)
    ensures
        r == relay_of(*e),
{
    match e {
        StreamEvent::TextDelta(t) => RelayAction::Content(t.clone()),
        StreamEvent::ReasoningDelta(t) => RelayAction::Reasoning(t.clone()),
        StreamEvent::TurnCompleted { .. } => RelayAction::Finish,
        StreamEvent::TurnFailed(m) => RelayAction::Fail(m.clone()),
        _ => RelayAction::Skip,
    }
}

/// How each kind of agent event reaches the client of a streamed answer: text and reasoning
/// are forwarded as they came; a failed turn is reported as a failure carrying its error, and
/// only a completed turn finishes the answer as a success; tool events send nothing.
pub proof fn law_relay_reports_what_happened(e: StreamEvent)
    ensures
        e matches StreamEvent::TextDelta(t) ==> relay_of(e) == RelayAction::Content(t),
        e matches StreamEvent::ReasoningDelta(r) ==> relay_of(e) == RelayAction::Reasoning(r),
        e matches StreamEvent::TurnFailed(m) ==> relay_of(e) == RelayAction::Fail(m),
        relay_of(e) is Finish <==> e is TurnCompleted,
        relay_of(e) is Fail <==> e is TurnFailed,
        e is ToolCallStarted || e is ToolCallCompleted ==> relay_of(e) is Skip,
{
}

/// The id of a completion answered at `now` (milliseconds since the epoch): `chatcmpl-` and
/// the milliseconds.
pub fn completion_id(now: i64) -> (r: String)
    ensures
        r@ == "chatcmpl-"@ + signed_decimal(now as int),
{
    let n = i64_to_string(now);
    cat("chatcmpl-", n.as_str())
}

/// The session a gateway request runs in: `http:temp`, fresh, created at `now`.
pub fn request_session_at(now: i64) -> (s: Session)
    ensures
        s.session_key@ == "http:temp"@,
        s.messages@.len() == 0,
        s.created_at == now,
        s.updated_at == now,
{
    Session::new_at("http:temp", now)
}

} // verus!
