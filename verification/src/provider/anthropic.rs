//! The Anthropic messages API: what a reply and a streamed event mean, once their JSON has
//! been read into plain values.
use vstd::prelude::*;
use crate::provider::{ChatResponse, ProviderStreamEvent};
use crate::session::{FunctionCall, ToolCall};
use crate::text::owned;

verus! {

/// A block of a reply's `content`, by its `type`.
#[derive(Debug, Clone)]
pub enum AnthropicBlock {
    /// A `text` block and its `text`, when it is a string.
    Text(Option<String>),
    /// A `tool_use` block: its `id` and `name`, and its `input` written out as JSON.
    ToolUse { id: Option<String>, name: Option<String>, input: String },
    /// Any other block.
    Other,
}

/// A complete reply: its content blocks (when `content` is an array), its token usage and its
/// stop reason.
#[derive(Debug, Clone)]
pub struct AnthropicReply {
    pub blocks: Option<Vec<AnthropicBlock>>,
    pub input_tokens: Option<u64>,
    pub output_tokens: Option<u64>,
    pub stop_reason: Option<String>,
}

/// A streamed event, by its `type`.
#[derive(Debug, Clone)]
pub enum AnthropicStreamEvent {
    /// `content_block_delta`, with its delta's `text` and `thinking`.
    ContentBlockDelta { text: Option<String>, thinking: Option<String> },
    /// `message_stop`.
    MessageStop,
    /// Any other event.
    Other,
}

/// The Anthropic provider.
pub struct AnthropicProvider;

/// The text of a reply: that of its last text block with text.
pub open spec fn reply_text(bs: Seq<AnthropicBlock>) -> Option<String>
    decreases bs.len(),
{
    if bs.len() == 0 {
        None
    } else {
        match bs.last() {
            AnthropicBlock::Text(Some(t)) => Some(t),
            _ => reply_text(bs.drop_last()),
        }
    }
}

/// The tool-use blocks of a reply as tool calls, in order: type `function`, missing id and
/// name empty, the input as arguments.
pub open spec fn reply_uses(bs: Seq<AnthropicBlock>) -> Seq<(Seq<char>, Seq<char>, Seq<char>)>
    decreases bs.len(),
{
    if bs.len() == 0 {
        seq![]
    } else {
        match bs.last() {
            AnthropicBlock::ToolUse { id, name, input } => reply_uses(bs.drop_last()).push(
                (
                    match id {
                        Some(s) => s@,
                        None => Seq::<char>::empty(),
                    },
                    match name {
                        Some(s) => s@,
                        None => Seq::<char>::empty(),
                    },
                    input@,
                ),
            ),
            _ => reply_uses(bs.drop_last()),
        }
    }
}

/// A tool call by its id, name and arguments, of type `function`.
pub open spec fn call_is(t: ToolCall, u: (Seq<char>, Seq<char>, Seq<char>)) -> bool {
    &&& t.id@ == u.0
    &&& t.call_type@ == "function"@
    &&& t.function.name@ == u.1
    &&& t.function.arguments@ == u.2
}

/// The tokens a reply used: input and output, a missing count taken as 0.
pub open spec fn used_tokens(r: AnthropicReply) -> int {
    (match r.input_tokens {
        Some(n) => n as int,
        None => 0,
    }) + (match r.output_tokens {
        Some(n) => n as int,
        None => 0,
    })
}

fn text_or_empty(s: &Option<String>) -> (r: String)
    ensures
        r@ == match s {
            Some(x) => x@,
            None => Seq::<char>::empty(),
        },
{
    match s {
        Some(x) => x.clone(),
        None => String::new(),
    }
}

impl AnthropicProvider {
    /// The `max_tokens` of a request body: the limit asked for, or 4096 when none was.
    pub fn max_tokens(asked: Option<usize>) -> (r: usize)
        ensures
            r == match asked {
                Some(n) => n,
                None => 4096,
            },
    {
        match asked {
            Some(n) => n,
            None => 4096,
        }
    }

    /// The reply of a complete chat: the text of the last text block, the tool-use blocks as
    /// tool calls (when there is at least one), the stop reason, and the input and output
    /// tokens summed.
    pub fn reply(r: &AnthropicReply) -> (c: ChatResponse)
        requires
            used_tokens(*r) <= u64::MAX,
        ensures
            c.reasoning_content is None,
            c.finish_reason == r.stop_reason,
            c.total_tokens == Some(used_tokens(*r) as usize),
            match r.blocks {
                Some(bs) => {
                    &&& c.content == reply_text(bs@)
                    &&& reply_uses(bs@).len() == 0 ==> c.tool_calls is None
                    &&& reply_uses(bs@).len() > 0 ==> (c.tool_calls matches Some(ts) && ts@.len()
                        == reply_uses(bs@).len() && forall|i: int|
                        0 <= i < ts@.len() ==> call_is(#[trigger] ts@[i], reply_uses(bs@)[i]))
                },
                None => c.content is None && c.tool_calls is None,
            },
    {
        let mut content: Option<String> = None;
        let mut tool_calls: Option<Vec<ToolCall>> = None;
        match &r.blocks {
            Some(bs) => {
                let mut calls: Vec<ToolCall> = Vec::new();
                let mut i: usize = 0;
                while i < bs.len()
                    invariant
                        i <= bs@.len(),
                        content == reply_text(bs@.take(i as int)),
                        calls@.len() == reply_uses(bs@.take(i as int)).len(),
                        forall|k: int|
                            0 <= k < calls@.len() ==> call_is(
                                #[trigger] calls@[k],
                                reply_uses(bs@.take(i as int))[k],
                            ),
                    decreases bs@.len() - i,
                {
                    proof {
                        assert(bs@.take(i + 1).drop_last() =~= bs@.take(i as int));
                        assert(bs@.take(i + 1).last() == bs@[i as int]);
                    }
                    match &bs[i] {
                        AnthropicBlock::Text(Some(t)) => {
                            content = Some(t.clone());
                        },
                        AnthropicBlock::ToolUse { id, name, input } => {
                            let t = ToolCall {
                                id: text_or_empty(id),
                                call_type: owned("function"),
                                function: FunctionCall { name: text_or_empty(name), arguments: input.clone() },
                            };
                            let ghost before = calls@;
                            calls.push(t);
                            proof {
                                let u = reply_uses(bs@.take(i + 1));
                                assert forall|k: int| 0 <= k < calls@.len() implies call_is(
                                    #[trigger] calls@[k],
                                    u[k],
                                ) by {
                                    if k < before.len() {
                                        assert(calls@[k] == before[k]);
                                    }
                                }
                            }
                        },
                        _ => {},
                    }
                    i = i + 1;
                }
                assert(bs@.take(bs@.len() as int) =~= bs@);
                if calls.len() > 0 {
                    tool_calls = Some(calls);
                }
            },
            None => {},
        }
        let a: u64 = match r.input_tokens {
            Some(n) => n,
            None => 0,
        };
        let b: u64 = match r.output_tokens {
            Some(n) => n,
            None => 0,
        };
        let total = a + b;
        ChatResponse {
            content,
            reasoning_content: None,
            tool_calls,
            finish_reason: r.stop_reason.clone(),
            total_tokens: Some(total as usize),
        }
    }

    /// What a streamed event yields, and whether the stream ends with it: a delta's text as
    /// content, else its thinking as reasoning; the end of the message as a completion with
    /// `stop`, ending the stream; nothing for other events.
    pub fn stream_event(e: &AnthropicStreamEvent) -> (r: (Option<ProviderStreamEvent>, bool))
        ensures
            match *e {
                AnthropicStreamEvent::ContentBlockDelta { text, thinking } => !r.1 && match (text, thinking) {
                    (Some(t), _) => r.0 == Some(ProviderStreamEvent::ContentDelta(t)),
                    (None, Some(th)) => r.0 == Some(ProviderStreamEvent::ReasoningDelta(th)),
                    (None, None) => r.0 is None,
                },
                AnthropicStreamEvent::MessageStop => r.1 && (r.0 matches Some(
                    ProviderStreamEvent::Completed { finish_reason: Some(f), total_tokens: None },
                ) && f@ == "stop"@),
                AnthropicStreamEvent::Other => !r.1 && r.0 is None,
            },
    {
        match e {
            AnthropicStreamEvent::ContentBlockDelta { text, thinking } => match text {
                Some(t) => (Some(ProviderStreamEvent::ContentDelta(t.clone())), false),
                None => match thinking {
                    Some(th) => (Some(ProviderStreamEvent::ReasoningDelta(th.clone())), false),
                    None => (None, false),
                },
            },
            AnthropicStreamEvent::MessageStop => (
                Some(
                    ProviderStreamEvent::Completed {
                        finish_reason: Some(owned("stop")),
                        total_tokens: None,
                    },
                ),
                true,
            ),
            AnthropicStreamEvent::Other => (None, false),
        }
    }
}

} // verus!
