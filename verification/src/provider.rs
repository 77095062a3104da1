//! What the language-model providers answer.
pub mod anthropic;
pub mod fallback;
pub mod openai;
use vstd::prelude::*;
use crate::session::{mviews, sys_v, MessageView, SessionMessage, ToolCall};
use crate::text::{cat, chars_of, opt_chars, owned, str_eq, string_of};

verus! {

/// A complete reply of the model.
#[derive(Debug, Clone)]
pub struct ChatResponse {
    pub content: Option<String>,
    pub reasoning_content: Option<String>,
    pub tool_calls: Option<Vec<ToolCall>>,
    pub finish_reason: Option<String>,
    pub total_tokens: Option<usize>,
}

/// One piece of a streamed reply.
#[derive(Debug, Clone)]
pub enum ProviderStreamEvent {
    ContentDelta(String),
    ReasoningDelta(String),
    ToolCallDelta { index: usize, id: Option<String>, name: Option<String>, arguments: String },
    Completed { finish_reason: Option<String>, total_tokens: Option<usize> },
}

} // verus!

verus! {

/// An endpoint of a provider: its name, base URL (without trailing slashes) and API key.
#[derive(Debug, Clone)]
pub struct Endpoint {
    pub name: String,
    pub base_url: String,
    pub api_key: String,
}

/// `s` without its trailing `/` characters (what `trim_end_matches('/')` gives).
pub open spec fn trim_trailing_slashes(s: Seq<char>) -> Seq<char>
    decreases s.len(),
{
    if s.len() > 0 && s.last() == '/' {
        trim_trailing_slashes(s.drop_last())
    } else {
        s
    }
}

/// A message as the Anthropic API takes it: role and text.
#[derive(Debug, Clone)]
pub struct AnthropicMessage {
    pub role: String,
    pub content: String,
}

/// The system text and messages of an Anthropic request.
#[derive(Debug, Clone)]
pub struct AnthropicPrompt {
    pub system: Option<String>,
    pub messages: Vec<AnthropicMessage>,
}

/// The system text of a conversation for Anthropic: the content of its last system message
/// that has content.
pub open spec fn anthropic_system(ms: Seq<MessageView>) -> Option<Seq<char>>
    decreases ms.len(),
{
    if ms.len() == 0 {
        None
    } else if sys_v(ms.last()) && ms.last().content is Some {
        ms.last().content
    } else {
        anthropic_system(ms.drop_last())
    }
}

/// The Anthropic role of a message: `assistant` stays, anything else becomes `user`.
pub open spec fn anthropic_role(role: Seq<char>) -> Seq<char> {
    if role == "assistant"@ {
        "assistant"@
    } else {
        "user"@
    }
}

/// The non-system messages as role and text (empty text for no content), in order.
pub open spec fn anthropic_messages(ms: Seq<MessageView>) -> Seq<(Seq<char>, Seq<char>)>
    decreases ms.len(),
{
    if ms.len() == 0 {
        seq![]
    } else if sys_v(ms.last()) {
        anthropic_messages(ms.drop_last())
    } else {
        anthropic_messages(ms.drop_last()).push(
            (
                anthropic_role(ms.last().role),
                match ms.last().content {
                    Some(c) => c,
                    None => seq![],
                },
            ),
        )
    }
}

/// The views of Anthropic messages.
pub open spec fn amsg_views(v: Seq<AnthropicMessage>) -> Seq<(Seq<char>, Seq<char>)> {
    v.map_values(|m: AnthropicMessage| (m.role@, m.content@))
}

/// Whether a request body carries a `tools` key, given how many tools are offered (`None`
/// when the request has no tool list): only when at least one is.
pub fn offers_tools(count: Option<usize>) -> (r: bool)
    ensures
        r == (count matches Some(n) && n > 0),
{
    match count {
        Some(n) => n > 0,
        None => false,
    }
}

impl Endpoint {
    /// An endpoint; trailing slashes of the base URL are removed.
    pub fn new(name: &str, base_url: &str, api_key: &str) -> (e: Endpoint)
        ensures
            e.name@ == name@,
            e.base_url@ == trim_trailing_slashes(base_url@),
            e.api_key@ == api_key@,
    {
        let v = chars_of(base_url);
        let mut n: usize = v.len();
        assert(v@.take(v.len() as int) =~= v@);
        while n > 0 && v[n - 1] == '/'
            invariant
                v@ == base_url@,
                n <= v.len(),
                trim_trailing_slashes(base_url@) == trim_trailing_slashes(v@.take(n as int)),
            decreases n,
        {
            proof {
                assert(v@.take(n as int).drop_last() =~= v@.take(n - 1));
            }
            n = n - 1;
        }
        proof {
            assert(v@.take(v.len() as int) =~= v@);
        }
        let trimmed = string_of(v.as_slice().split_at(n).0);
        proof {
            assert(v@.subrange(0, n as int) =~= v@.take(n as int));
        }
        Endpoint { name: owned(name), base_url: trimmed, api_key: owned(api_key) }
    }

    /// The OpenAI-style chat endpoint: `<base>/chat/completions`.
    pub fn chat_url(&self) -> (r: String)
        ensures
            r@ == self.base_url@ + "/chat/completions"@,
    {
        cat(self.base_url.as_str(), "/chat/completions")
    }

    /// The Anthropic messages endpoint: `<base>/v1/messages`.
    pub fn messages_url(&self) -> (r: String)
        ensures
            r@ == self.base_url@ + "/v1/messages"@,
    {
        cat(self.base_url.as_str(), "/v1/messages")
    }

    /// The `Authorization` header value, `Bearer <key>`, when a key is set.
    pub fn bearer(&self) -> (r: Option<String>)
        ensures
            self.api_key@.len() == 0 ==> r is None,
            self.api_key@.len() > 0 ==> (r matches Some(h) && h@ == "Bearer "@ + self.api_key@),
    {
        if self.api_key.as_str().unicode_len() == 0 {
            None
        } else {
            Some(cat("Bearer ", self.api_key.as_str()))
        }
    }
}

impl AnthropicPrompt {
    /// Splits a conversation for the Anthropic API: the last system content becomes the system
    /// text; the other messages keep their order, `assistant` messages as such and all others
    /// as `user`, with their content or empty text.
    pub fn from_messages(messages: &[SessionMessage]) -> (p: AnthropicPrompt)
        ensures
            opt_chars(p.system) == anthropic_system(mviews(messages@)),
            amsg_views(p.messages@) == anthropic_messages(mviews(messages@)),
    {
        let ghost ms = mviews(messages@);
        let mut system: Option<String> = None;
        let mut out: Vec<AnthropicMessage> = Vec::new();
        let mut i: usize = 0;
        while i < messages.len()
            invariant
                ms == mviews(messages@),
                i <= ms.len(),
                opt_chars(system) == anthropic_system(ms.take(i as int)),
                amsg_views(out@) == anthropic_messages(ms.take(i as int)),
            decreases ms.len() - i,
        {
            proof {
                assert(ms.take(i + 1).drop_last() =~= ms.take(i as int));
                assert(ms.take(i + 1).last() == messages@[i as int]@);
            }
            let m = &messages[i];
            if m.is_system_role() {
                match &m.content {
                    Some(c) => {
                        system = Some(c.clone());
                    },
                    None => {},
                }
            } else {
                let role = if str_eq(m.role.as_str(), "assistant") {
                    owned("assistant")
                } else {
                    owned("user")
                };
                let content = match &m.content {
                    Some(c) => c.clone(),
                    None => String::new(),
                };
                let am = AnthropicMessage { role, content };
                proof {
                    assert(amsg_views(out@.push(am)) =~= amsg_views(out@).push((am.role@, am.content@)));
                }
                out.push(am);
            }
            i = i + 1;
        }
        assert(ms.take(ms.len() as int) =~= ms);
        AnthropicPrompt { system, messages: out }
    }
}

} // verus!
