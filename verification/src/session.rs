//! Conversation sessions: messages, tool calls and the session record.
pub mod compactor;
pub mod store;

use vstd::prelude::*;
use crate::clock::now_millis;
use crate::text::{copy_opt, opt_chars, owned, str_eq};

verus! {

/// The function part of a tool call requested by the model.
#[derive(Debug, Clone)]
pub struct FunctionCall {
    pub name: String,
    pub arguments: String,
}

/// A tool call requested by the model.
#[derive(Debug, Clone)]
pub struct ToolCall {
    pub id: String,
    pub call_type: String,
    pub function: FunctionCall,
}

/// One message of a conversation. `timestamp` is in milliseconds since the Unix epoch.
#[derive(Debug, Clone)]
pub struct SessionMessage {
    pub role: String,
    pub content: Option<String>,
    pub name: Option<String>,
    pub tool_calls: Option<Vec<ToolCall>>,
    pub tool_call_id: Option<String>,
    pub timestamp: i64,
}

/// A conversation: its key and its messages in order. Times are in milliseconds since the
/// Unix epoch.
#[derive(Debug, Clone)]
pub struct Session {
    pub session_key: String,
    pub messages: Vec<SessionMessage>,
    pub created_at: i64,
    pub updated_at: i64,
}

/// The mathematical content of a message: every field by its view.
pub struct MessageView {
    pub role: Seq<char>,
    pub content: Option<Seq<char>>,
    pub name: Option<Seq<char>>,
    pub tool_calls: Option<Seq<ToolCall>>,
    pub tool_call_id: Option<Seq<char>>,
    pub timestamp: i64,
}

impl View for SessionMessage {
    type V = MessageView;

    open spec fn view(&self) -> MessageView {
        MessageView {
            role: self.role@,
            content: opt_chars(self.content),
            name: opt_chars(self.name),
            tool_calls: match self.tool_calls {
                Some(c) => Some(c@),
                None => None,
            },
            tool_call_id: opt_chars(self.tool_call_id),
            timestamp: self.timestamp,
        }
    }
}

/// The views of a run of messages.
pub open spec fn mviews(s: Seq<SessionMessage>) -> Seq<MessageView> {
    s.map_values(|m: SessionMessage| m@)
}

/// Views of a run commute with appending one message.
pub proof fn lemma_mviews_push(s: Seq<SessionMessage>, x: SessionMessage)
    ensures
        mviews(s.push(x)) == mviews(s).push(x@),
{
    assert(mviews(s.push(x)) =~= mviews(s).push(x@));
}

/// The role of the view is `system`.
pub open spec fn sys_v(m: MessageView) -> bool {
    m.role == "system"@
}

/// The role of the view is `user`.
pub open spec fn user_v(m: MessageView) -> bool {
    m.role == "user"@
}

/// The least index `k >= j` of a user message, or `ms.len()`.
pub open spec fn next_user(ms: Seq<MessageView>, j: int) -> int
    decreases ms.len() - j,
{
    if j < 0 || j >= ms.len() {
        ms.len() as int
    } else if user_v(ms[j]) {
        j
    } else {
        next_user(ms, j + 1)
    }
}

/// `next_user` finds the first user message at or after `j`.
pub proof fn lemma_next_user(ms: Seq<MessageView>, j: int)
    requires
        0 <= j <= ms.len(),
    ensures
        j <= next_user(ms, j) <= ms.len(),
        next_user(ms, j) < ms.len() ==> user_v(ms[next_user(ms, j)]),
        forall|k: int| j <= k < next_user(ms, j) ==> !user_v(#[trigger] ms[k]),
    decreases ms.len() - j,
{
    if j < ms.len() && !user_v(ms[j]) {
        lemma_next_user(ms, j + 1);
    }
}

/// The message has the role `system`.
pub open spec fn is_system(m: SessionMessage) -> bool {
    m.role@ == "system"@
}

/// The message has the role `user`.
pub open spec fn is_user(m: SessionMessage) -> bool {
    m.role@ == "user"@
}

impl FunctionCall {
    /// A copy of the call.
    pub fn duplicate(&self) -> (r: FunctionCall)
        ensures
            r == *self,
    {
        FunctionCall { name: self.name.clone(), arguments: self.arguments.clone() }
    }
}

impl ToolCall {
    /// A copy of the call.
    pub fn duplicate(&self) -> (r: ToolCall)
        ensures
            r == *self,
    {
        ToolCall {
            id: self.id.clone(),
            call_type: self.call_type.clone(),
            function: self.function.duplicate(),
        }
    }
}

/// A copy of a list of tool calls.
pub fn copy_calls(v: &Vec<ToolCall>) -> (r: Vec<ToolCall>)
    ensures
        r@ == v@,
{
    let mut r: Vec<ToolCall> = Vec::new();
    let mut i: usize = 0;
    while i < v.len()
        invariant
            i <= v.len(),
            r@ == v@.take(i as int),
        decreases v.len() - i,
    {
        r.push(v[i].duplicate());
        i = i + 1;
        assert(r@ =~= v@.take(i as int));
    }
    assert(v@.take(v.len() as int) =~= v@);
    r
}

impl SessionMessage {
    /// A copy of the message.
    pub fn duplicate(&self) -> (r: SessionMessage)
        ensures
            r@ == self@,
            r.role == self.role,
            r.content == self.content,
    {
        SessionMessage {
            role: self.role.clone(),
            content: copy_opt(&self.content),
            name: copy_opt(&self.name),
            tool_calls: match &self.tool_calls {
                Some(c) => Some(copy_calls(c)),
                None => None,
            },
            tool_call_id: copy_opt(&self.tool_call_id),
            timestamp: self.timestamp,
        }
    }

    /// Does the message have the role `system`?
    pub fn is_system_role(&self) -> (r: bool)
        ensures
            r == is_system(*self),
    {
        str_eq(self.role.as_str(), "system")
    }

    /// Does the message have the role `user`?
    pub fn is_user_role(&self) -> (r: bool)
        ensures
            r == is_user(*self),
    {
        str_eq(self.role.as_str(), "user")
    }

    /// A plain message of `role` with `content`, stamped `timestamp`.
    pub fn plain(role: &str, content: Option<String>, timestamp: i64) -> (r: SessionMessage)
        ensures
            r.role@ == role@,
            r.content == content,
            r.name is None,
            r.tool_calls is None,
            r.tool_call_id is None,
            r.timestamp == timestamp,
    {
        SessionMessage {
            role: owned(role),
            content,
            name: None,
            tool_calls: None,
            tool_call_id: None,
            timestamp,
        }
    }
}

/// A copy of a run of messages.
pub fn copy_messages(v: &[SessionMessage]) -> (r: Vec<SessionMessage>)
    ensures
        mviews(r@) == mviews(v@),
{
    copy_range(v, 0, v.len())
}

/// A copy of the messages `v[from..to]`.
pub fn copy_range(v: &[SessionMessage], from: usize, to: usize) -> (r: Vec<SessionMessage>)
    requires
        from <= to <= v@.len(),
    ensures
        mviews(r@) == mviews(v@.subrange(from as int, to as int)),
{
    let mut r: Vec<SessionMessage> = Vec::new();
    let mut i: usize = from;
    while i < to
        invariant
            from <= i <= to <= v@.len(),
            mviews(r@) == mviews(v@.subrange(from as int, i as int)),
        decreases to - i,
    {
        let m = v[i].duplicate();
        proof {
            lemma_mviews_push(r@, m);
            lemma_mviews_push(v@.subrange(from as int, i as int), v@[i as int]);
            assert(v@.subrange(from as int, i + 1) =~= v@.subrange(from as int, i as int).push(v@[i as int]));
        }
        r.push(m);
        i = i + 1;
    }
    r
}

/// Appends copies of `v[from..]` to `out`.
pub fn extend_with_copies(out: &mut Vec<SessionMessage>, v: &[SessionMessage], from: usize)
    requires
        from <= v@.len(),
    ensures
        mviews(final(out)@) == mviews(old(out)@) + mviews(v@.skip(from as int)),
{
    let ghost start = mviews(out@);
    let mut i: usize = from;
    while i < v.len()
        invariant
            from <= i <= v@.len(),
            mviews(out@) == start + mviews(v@.subrange(from as int, i as int)),
        decreases v.len() - i,
    {
        let m = v[i].duplicate();
        proof {
            lemma_mviews_push(out@, m);
            lemma_mviews_push(v@.subrange(from as int, i as int), v@[i as int]);
            assert(v@.subrange(from as int, i + 1) =~= v@.subrange(from as int, i as int).push(v@[i as int]));
        }
        out.push(m);
        i = i + 1;
    }
    assert(v@.subrange(from as int, v@.len() as int) =~= v@.skip(from as int));
}

impl Session {
    /// An empty session named `session_key`, created and updated at `now`.
    pub fn new_at(session_key: &str, now: i64) -> (s: Session)
        ensures
            s.session_key@ == session_key@,
            s.messages@.len() == 0,
            s.created_at == now,
            s.updated_at == now,
    {
        Session { session_key: owned(session_key), messages: Vec::new(), created_at: now, updated_at: now }
    }

    /// An empty session named `session_key`, stamped with the current time.
    pub fn new(session_key: &str) -> (s: Session)
        ensures
            s.session_key@ == session_key@,
            s.messages@.len() == 0,
            s.created_at == s.updated_at,
    {
        let now = now_millis();
        Session::new_at(session_key, now)
    }
}

} // verus!
