//! The OpenAI-style chat API: what a reply and a streamed chunk mean, once their JSON has been
//! read into plain values.
use vstd::prelude::*;
use crate::provider::{ChatResponse, ProviderStreamEvent};
use crate::session::{FunctionCall, ToolCall};
use crate::text::{owned, str_eq, trim, trimmed};

verus! {

/// A tool-call piece of a streamed delta: its `index`, `id`, `function.name`, and
/// `function.arguments` (empty when absent).
#[derive(Debug, Clone)]
pub struct OpenAiToolCallChunk {
    pub index: Option<u64>,
    pub id: Option<String>,
    pub name: Option<String>,
    pub arguments: String,
}

/// The first choice of a streamed chunk: the fields of its `delta`, its `finish_reason`, and
/// the chunk's `usage.total_tokens`.
#[derive(Debug, Clone)]
pub struct OpenAiDelta {
    pub reasoning_content: Option<String>,
    pub reasoning: Option<String>,
    pub content: Option<String>,
    pub tool_calls: Vec<OpenAiToolCallChunk>,
    pub finish_reason: Option<String>,
    pub total_tokens: Option<u64>,
}

/// A tool call of a complete reply: `id` and `type` and `function.name` where present, and the
/// arguments as text (a JSON string as is, any other JSON value written out).
#[derive(Debug, Clone)]
pub struct OpenAiToolCall {
    pub id: Option<String>,
    pub call_type: Option<String>,
    pub name: Option<String>,
    pub arguments: String,
}

/// The first choice of a complete reply: the fields of its `message`, its `finish_reason`, and
/// the reply's `usage.total_tokens`.
#[derive(Debug, Clone)]
pub struct OpenAiReply {
    pub content: Option<String>,
    pub reasoning_content: Option<String>,
    pub reasoning: Option<String>,
    pub tool_calls: Option<Vec<OpenAiToolCall>>,
    pub finish_reason: Option<String>,
    pub total_tokens: Option<u64>,
}

/// The OpenAI-style provider.
pub struct OpenAiProvider;

/// The reasoning text of a delta or reply: `reasoning_content`, else `reasoning`.
pub open spec fn reasoning_of(reasoning_content: Option<String>, reasoning: Option<String>) -> Option<
    String,
> {
    match reasoning_content {
        Some(r) => Some(r),
        None => reasoning,
    }
}

/// The event of one tool-call piece; a missing index counts as 0.
pub open spec fn chunk_event(c: OpenAiToolCallChunk) -> ProviderStreamEvent {
    ProviderStreamEvent::ToolCallDelta {
        index: (match c.index {
            Some(i) => i,
            None => 0,
        }) as usize,
        id: c.id,
        name: c.name,
        arguments: c.arguments,
    }
}

/// The events of tool-call pieces, in order.
pub open spec fn chunk_events(cs: Seq<OpenAiToolCallChunk>) -> Seq<ProviderStreamEvent> {
    cs.map_values(|c: OpenAiToolCallChunk| chunk_event(c))
}

/// The events of a streamed delta, in order: reasoning, content, tool-call pieces, and
/// completion when the choice has a finish reason.
pub open spec fn delta_events(d: OpenAiDelta) -> Seq<ProviderStreamEvent> {
    (match reasoning_of(d.reasoning_content, d.reasoning) {
        Some(r) => seq![ProviderStreamEvent::ReasoningDelta(r)],
        None => seq![],
    }) + (match d.content {
        Some(c) => seq![ProviderStreamEvent::ContentDelta(c)],
        None => seq![],
    }) + chunk_events(d.tool_calls@) + (match d.finish_reason {
        Some(f) => seq![
            ProviderStreamEvent::Completed {
                finish_reason: Some(f),
                total_tokens: match d.total_tokens {
                    Some(t) => Some(t as usize),
                    None => None,
                },
            },
        ],
        None => seq![],
    })
}

/// A tool call of a reply as the session keeps it: missing `id` and name are empty, a missing
/// type is `function`.
pub open spec fn reply_call_matches(c: OpenAiToolCall, t: ToolCall) -> bool {
    &&& t.id@ == (match c.id {
        Some(s) => s@,
        None => Seq::<char>::empty(),
    })
    &&& t.call_type@ == (match c.call_type {
        Some(s) => s@,
        None => "function"@,
    })
    &&& t.function.name@ == (match c.name {
        Some(s) => s@,
        None => Seq::<char>::empty(),
    })
    &&& t.function.arguments == c.arguments
}

fn text_or(s: &Option<String>, default: &str) -> (r: String)
    ensures
        r@ == match s {
            Some(x) => x@,
            None => default@,
        },
{
    match s {
        Some(x) => x.clone(),
        None => owned(default),
    }
}

impl OpenAiProvider {
    /// Whether the data of a server-sent event, trimmed, is the end marker `[DONE]`.
    pub fn is_done(data: &str) -> (r: bool)
        ensures
            r == (trimmed(data@) == "[DONE]"@),
    {
        let t = trim(data);
        str_eq(t.as_str(), "[DONE]")
    }

    /// The completion reported for the end marker: finished with `stop`, no token count.
    pub fn done_event() -> (e: ProviderStreamEvent)
        ensures
            e matches ProviderStreamEvent::Completed { finish_reason: Some(f), total_tokens: None }
                && f@ == "stop"@,
    {
        ProviderStreamEvent::Completed { finish_reason: Some(owned("stop")), total_tokens: None }
    }

    /// The events of a streamed delta, in order: its reasoning (`reasoning_content`, else
    /// `reasoning`), its content, one event per tool-call piece, and the completion when the
    /// choice has a finish reason.
    pub fn delta_events(d: &OpenAiDelta) -> (r: Vec<ProviderStreamEvent>)
        ensures
            r@ == delta_events(*d),
    {
        let mut out: Vec<ProviderStreamEvent> = Vec::new();
        match &d.reasoning_content {
            Some(rc) => out.push(ProviderStreamEvent::ReasoningDelta(rc.clone())),
            None => match &d.reasoning {
                Some(rc) => out.push(ProviderStreamEvent::ReasoningDelta(rc.clone())),
                None => {},
            },
        }
        match &d.content {
            Some(c) => out.push(ProviderStreamEvent::ContentDelta(c.clone())),
            None => {},
        }
        let ghost head = out@;
        let mut i: usize = 0;
        while i < d.tool_calls.len()
            invariant
                i <= d.tool_calls@.len(),
                out@ == head + chunk_events(d.tool_calls@.take(i as int)),
            decreases d.tool_calls@.len() - i,
        {
            let c = &d.tool_calls[i];
            let index: u64 = match c.index {
                Some(x) => x,
                None => 0,
            };
            out.push(
                ProviderStreamEvent::ToolCallDelta {
                    index: index as usize,
                    id: c.id.clone(),
                    name: c.name.clone(),
                    arguments: c.arguments.clone(),
                },
            );
            proof {
                assert(chunk_events(d.tool_calls@.take(i + 1)) =~= chunk_events(
                    d.tool_calls@.take(i as int),
                ).push(chunk_event(d.tool_calls@[i as int])));
            }
            i = i + 1;
        }
        assert(d.tool_calls@.take(d.tool_calls@.len() as int) =~= d.tool_calls@);
        match &d.finish_reason {
            Some(f) => {
                let total: Option<usize> = match d.total_tokens {
                    Some(t) => Some(t as usize),
                    None => None,
                };
                out.push(ProviderStreamEvent::Completed { finish_reason: Some(f.clone()), total_tokens: total });
            },
            None => {},
        }
        assert(out@ =~= delta_events(*d));
        out
    }

    /// The reply of a complete chat: content, reasoning (`reasoning_content`, else
    /// `reasoning`), finish reason and token count as given; the tool calls when there is at
    /// least one, each with an empty id or name and the type `function` where those are
    /// missing.
    pub fn reply(m: &OpenAiReply) -> (r: ChatResponse)
        ensures
            r.content == m.content,
            r.reasoning_content == reasoning_of(m.reasoning_content, m.reasoning),
            r.finish_reason == m.finish_reason,
            r.total_tokens == match m.total_tokens {
                Some(t) => Some(t as usize),
                None => None,
            },
            match m.tool_calls {
                Some(cs) if cs@.len() > 0 => r.tool_calls matches Some(ts) && ts@.len() == cs@.len()
                    && forall|i: int| 0 <= i < cs@.len() ==> reply_call_matches(cs@[i], #[trigger] ts@[i]),
                _ => r.tool_calls is None,
            },
    {
        let reasoning = match &m.reasoning_content {
            Some(rc) => Some(rc.clone()),
            None => match &m.reasoning {
                Some(rc) => Some(rc.clone()),
                None => None,
            },
        };
        let mut tool_calls: Option<Vec<ToolCall>> = None;
        match &m.tool_calls {
            Some(cs) => {
                let mut calls: Vec<ToolCall> = Vec::new();
                let mut i: usize = 0;
                while i < cs.len()
                    invariant
                        i <= cs@.len(),
                        calls@.len() == i,
                        forall|k: int| 0 <= k < i ==> reply_call_matches(cs@[k], #[trigger] calls@[k]),
                    decreases cs@.len() - i,
                {
                    let c = &cs[i];
                    let t = ToolCall {
                        id: text_or(&c.id, ""),
                        call_type: text_or(&c.call_type, "function"),
                        function: FunctionCall { name: text_or(&c.name, ""), arguments: c.arguments.clone() },
                    };
                    proof {
                        reveal_strlit("");
                        assert(""@ =~= Seq::<char>::empty());
                    }
                    assert(reply_call_matches(cs@[i as int], t));
                    let ghost before = calls@;
                    calls.push(t);
                    assert forall|k: int| 0 <= k < i + 1 implies reply_call_matches(
                        cs@[k],
                        #[trigger] calls@[k],
                    ) by {
                        if k < i {
                            assert(calls@[k] == before[k]);
                        }
                    }
                    i = i + 1;
                }
                if calls.len() > 0 {
                    tool_calls = Some(calls);
                }
            },
            None => {},
        }
        let total: Option<usize> = match m.total_tokens {
            Some(t) => Some(t as usize),
            None => None,
        };
        ChatResponse {
            content: m.content.clone(),
            reasoning_content: reasoning,
            tool_calls,
            finish_reason: m.finish_reason.clone(),
            total_tokens: total,
        }
    }
}

} // verus!
