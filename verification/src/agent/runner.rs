//! One turn of the agent: the model and the tools take turns until the model answers without
//! asking for a tool, or the iteration limit is reached.
//!
//! The turn is a state machine. The caller performs what each step asks for (a model call or a
//! tool run), publishes the events the step returns, and hands the outcome back.
use vstd::prelude::*;
use crate::bus::StreamEvent;
use crate::clock::now_millis;
use crate::provider::ChatResponse;
use crate::session::{
    copy_calls, lemma_mviews_push, mviews, MessageView, Session, SessionMessage, ToolCall,
};
use crate::text::{copy_opt, opt_chars, owned};
use crate::tools::ToolResult;

verus! {

/// The turn driver. Model calls are counted against `max_turns`.
pub struct AgentRunner {
    max_turns: usize,
    iterations: usize,
    final_content: String,
    pending: Vec<ToolCall>,
    next_call: usize,
}

/// What the caller must do next.
pub enum TurnStep {
    /// Ask the model for a reply to the session's messages.
    CallModel,
    /// Run this tool call.
    RunTool(ToolCall),
    /// The turn is over; this is the final reply text.
    Finished(String),
}

/// The user's message of a turn.
pub open spec fn user_message(input: Seq<char>, now: i64) -> MessageView {
    MessageView {
        role: "user"@,
        content: Some(input),
        name: None,
        tool_calls: None,
        tool_call_id: None,
        timestamp: now,
    }
}

/// An assistant message with optional content and tool calls.
pub open spec fn assistant_message(
    content: Option<Seq<char>>,
    calls: Option<Seq<ToolCall>>,
    now: i64,
) -> MessageView {
    MessageView {
        role: "assistant"@,
        content: content,
        name: None,
        tool_calls: calls,
        tool_call_id: None,
        timestamp: now,
    }
}

/// The message that hands a tool's output back to the model.
pub open spec fn tool_message(call: ToolCall, output: Seq<char>, now: i64) -> MessageView {
    MessageView {
        role: "tool"@,
        content: Some(output),
        name: Some(call.function.name@),
        tool_calls: None,
        tool_call_id: Some(call.id@),
        timestamp: now,
    }
}

/// The reply asks for at least one tool call.
pub open spec fn asks_for_tools(resp: ChatResponse) -> bool {
    resp.tool_calls matches Some(tc) && tc@.len() > 0
}

/// The events for the text of a reply: its reasoning, then its content, when present.
pub open spec fn reply_events(resp: ChatResponse) -> Seq<StreamEvent> {
    (match resp.reasoning_content {
        Some(r) => seq![StreamEvent::ReasoningDelta(r)],
        None => seq![],
    }) + (match resp.content {
        Some(c) => seq![StreamEvent::TextDelta(c)],
        None => seq![],
    })
}

/// The tool calls that the assistant message of a reply carries.
pub open spec fn reply_calls(resp: ChatResponse) -> Option<Seq<ToolCall>> {
    if asks_for_tools(resp) {
        Some(resp.tool_calls->0@)
    } else {
        None
    }
}

/// `a` is less work than `b`, compared in order of their parts.
pub open spec fn less_work(a: (nat, nat, nat), b: (nat, nat, nat)) -> bool {
    a.0 < b.0 || (a.0 == b.0 && (a.1 < b.1 || (a.1 == b.1 && a.2 < b.2)))
}

/// The event announcing a tool call.
pub open spec fn started_event(call: ToolCall) -> StreamEvent {
    StreamEvent::ToolCallStarted { call_id: call.id, name: call.function.name }
}

/// What starting a turn at `now` does: the user's message is appended to the session; the
/// driver has no reply and no pending call yet; it asks for the first model call, or finishes
/// at once with an empty reply when `max_turns` is 0.
pub open spec fn turn_begun(
    s0: Session,
    s1: Session,
    input: Seq<char>,
    max_turns: usize,
    now: i64,
    d: AgentRunner,
    step: TurnStep,
) -> bool {
    &&& mviews(s1.messages@) == mviews(s0.messages@).push(user_message(input, now))
    &&& s1.session_key == s0.session_key
    &&& s1.created_at == s0.created_at
    &&& s1.updated_at == s0.updated_at
    &&& d.max_turns() == max_turns
    &&& d.final_content() == Seq::<char>::empty()
    &&& d.pending().len() == 0
    &&& d.answered() == 0
    &&& d.iterations() <= d.max_turns()
    &&& max_turns > 0 ==> d.iterations() == 1 && step is CallModel
    &&& max_turns == 0 ==> d.iterations() == 0 && (step matches TurnStep::Finished(t) && t@.len() == 0)
}

/// What taking in the model's reply `resp` at `now` does. Its reasoning and content are
/// reported; content becomes the final reply so far. A reply that asks for tools is recorded
/// with its calls and the first call is to be run; any other reply is recorded and the turn
/// finishes with the final reply. Model calls are not counted here.
pub open spec fn model_replied(
    d0: AgentRunner,
    d1: AgentRunner,
    s0: Session,
    s1: Session,
    resp: ChatResponse,
    now: i64,
    events: Seq<StreamEvent>,
    step: TurnStep,
) -> bool {
    &&& d1.max_turns() == d0.max_turns()
    &&& d1.iterations() == d0.iterations()
    &&& d1.iterations() <= d1.max_turns()
    &&& !(step is Finished) ==> less_work(d1.remaining_work(), d0.remaining_work())
    &&& d1.final_content() == match resp.content {
        Some(c) => c@,
        None => d0.final_content(),
    }
    &&& s1.session_key == s0.session_key
    &&& s1.created_at == s0.created_at
    &&& s1.updated_at == s0.updated_at
    &&& asks_for_tools(resp) ==> {
        let tc = resp.tool_calls->0@;
        &&& mviews(s1.messages@) == mviews(s0.messages@).push(
            assistant_message(opt_chars(resp.content), Some(tc), now),
        )
        &&& d1.pending() == tc
        &&& d1.answered() == 0
        &&& events == reply_events(resp).push(started_event(tc[0]))
        &&& step == TurnStep::RunTool(tc[0])
    }
    &&& !asks_for_tools(resp) ==> {
        &&& mviews(s1.messages@) == mviews(s0.messages@).push(
            assistant_message(opt_chars(resp.content), None, now),
        )
        &&& d1.awaits_model()
        &&& events == reply_events(resp).push(StreamEvent::TurnCompleted { total_tokens: resp.total_tokens })
        &&& step matches TurnStep::Finished(t) && t@ == d1.final_content()
    }
}

/// What taking in the result of the pending tool call at `now` does. The result is reported
/// and handed to the model as a tool message answering the call. Then the next pending call is
/// to be run; or, when all are answered, the model is called again if the limit allows (one
/// more model call counted), else the turn finishes with the final reply so far.
pub open spec fn tool_answered(
    d0: AgentRunner,
    d1: AgentRunner,
    s0: Session,
    s1: Session,
    result: ToolResult,
    now: i64,
    events: Seq<StreamEvent>,
    step: TurnStep,
) -> bool {
    let call = d0.pending()[d0.answered() as int];
    let done = StreamEvent::ToolCallCompleted { call_id: call.id, output: result.output, is_error: result.is_error };
    &&& d1.max_turns() == d0.max_turns()
    &&& d1.iterations() <= d1.max_turns()
    &&& !(step is Finished) ==> less_work(d1.remaining_work(), d0.remaining_work())
    &&& d1.final_content() == d0.final_content()
    &&& d1.pending() == d0.pending()
    &&& d1.answered() == d0.answered() + 1
    &&& s1.session_key == s0.session_key
    &&& s1.created_at == s0.created_at
    &&& s1.updated_at == s0.updated_at
    &&& mviews(s1.messages@) == mviews(s0.messages@).push(tool_message(call, result.output@, now))
    &&& !d1.awaits_model() ==> {
        let next = d0.pending()[d0.answered() as int + 1];
        &&& events == seq![done, started_event(next)]
        &&& step == TurnStep::RunTool(next)
        &&& d1.iterations() == d0.iterations()
    }
    &&& d1.awaits_model() && d0.iterations() < d0.max_turns() ==> {
        &&& events == seq![done]
        &&& step is CallModel
        &&& d1.iterations() == d0.iterations() + 1
    }
    &&& d1.awaits_model() && d0.iterations() >= d0.max_turns() ==> {
        &&& events == seq![done]
        &&& step matches TurnStep::Finished(t) && t@ == d0.final_content()
        &&& d1.iterations() == d0.iterations()
    }
}

fn started(call: &ToolCall) -> (e: StreamEvent)
    ensures
        e == started_event(*call),
{
    StreamEvent::ToolCallStarted { call_id: call.id.clone(), name: call.function.name.clone() }
}

impl AgentRunner {
    #[verifier::type_invariant]
    spec fn wf(self) -> bool {
        &&& self.iterations <= self.max_turns
        &&& self.next_call <= self.pending@.len()
    }

    /// The iteration limit.
    pub closed spec fn max_turns(&self) -> nat {
        self.max_turns as nat
    }

    /// The model calls made so far.
    pub closed spec fn iterations(&self) -> nat {
        self.iterations as nat
    }

    /// The content of the latest reply that had content, or empty.
    pub closed spec fn final_content(&self) -> Seq<char> {
        self.final_content@
    }

    /// The tool calls of the latest reply.
    pub closed spec fn pending(&self) -> Seq<ToolCall> {
        self.pending@
    }

    /// How many of the pending calls have been answered.
    pub closed spec fn answered(&self) -> nat {
        self.next_call as nat
    }

    /// The driver waits for a model reply (rather than a tool result).
    pub open spec fn awaits_model(&self) -> bool {
        self.answered() == self.pending().len()
    }

    /// The work the turn may still do: the model calls left, whether a model reply is awaited,
    /// and the tool results still awaited.
    pub closed spec fn remaining_work(&self) -> (nat, nat, nat) {
        (
            (self.max_turns - self.iterations) as nat,
            if self.next_call == self.pending@.len() {
                1
            } else {
                0
            },
            (self.pending@.len() - self.next_call) as nat,
        )
    }

    /// Whether the driver waits for a model reply (rather than a tool result).
    pub fn awaits_model_reply(&self) -> (r: bool)
        ensures
            r == self.awaits_model(),
    {
        self.next_call == self.pending.len()
    }

    /// Whether every model call the limit allows has been made.
    pub fn reached_limit(&self) -> (r: bool)
        ensures
            r == (self.iterations() >= self.max_turns()),
    {
        self.iterations >= self.max_turns
    }

    /// Starts a turn: appends the user's message, stamped `now`, and asks for the first model
    /// call, or finishes at once with an empty reply when `max_turns` is 0.
    pub fn begin_turn_at(session: &mut Session, user_input: &str, max_turns: usize, now: i64) -> (r: (
        AgentRunner,
        TurnStep,
    ))
        ensures
            turn_begun(*old(session), *final(session), user_input@, max_turns, now, r.0, r.1),
    {
        let m = SessionMessage::plain("user", Some(owned(user_input)), now);
        proof {
            lemma_mviews_push(session.messages@, m);
        }
        session.messages.push(m);
        let d = AgentRunner {
            max_turns,
            iterations: if max_turns > 0 {
                1
            } else {
                0
            },
            final_content: String::new(),
            pending: Vec::new(),
            next_call: 0,
        };
        if max_turns > 0 {
            (d, TurnStep::CallModel)
        } else {
            (d, TurnStep::Finished(String::new()))
        }
    }

    /// Starts a turn as `begin_turn_at` does, stamped with the current time.
    pub fn begin_turn(session: &mut Session, user_input: &str, max_turns: usize) -> (r: (
        AgentRunner,
        TurnStep,
    ))
        ensures
            exists|now: i64|
                turn_begun(*old(session), *final(session), user_input@, max_turns, now, r.0, r.1),
    {
        let now = now_millis();
        Self::begin_turn_at(session, user_input, max_turns, now)
    }

    /// Takes in the model's reply `resp`, stamping new messages `now`. The reply's reasoning
    /// and content are reported as events; content becomes the final reply so far. When the
    /// reply asks for tools, it is recorded as an assistant message carrying the calls and the
    /// first call is to be run; otherwise it is recorded as a plain assistant message and the
    /// turn finishes with the final reply.
    pub fn on_model_reply_at(&mut self, session: &mut Session, resp: &ChatResponse, now: i64) -> (r: (
        Vec<StreamEvent>,
        TurnStep,
    ))
        requires
            old(self).awaits_model(),
        ensures
            model_replied(*old(self), *final(self), *old(session), *final(session), *resp, now, r.0@, r.1),
    {
        proof {
            use_type_invariant(&*self);
        }
        let mut events: Vec<StreamEvent> = Vec::new();
        match &resp.reasoning_content {
            Some(rc) => events.push(StreamEvent::ReasoningDelta(rc.clone())),
            None => {},
        }
        match &resp.content {
            Some(c) => {
                events.push(StreamEvent::TextDelta(c.clone()));
                self.final_content = c.clone();
            },
            None => {},
        }
        proof {
            assert(events@ =~= reply_events(*resp));
        }
        match &resp.tool_calls {
            Some(tc) => {
                if tc.len() > 0 {
                    let calls = copy_calls(tc);
                    let m = SessionMessage {
                        role: owned("assistant"),
                        content: copy_opt(&resp.content),
                        name: None,
                        tool_calls: Some(calls),
                        tool_call_id: None,
                        timestamp: now,
                    };
                    proof {
                        lemma_mviews_push(session.messages@, m);
                    }
                    session.messages.push(m);
                    let first = tc[0].duplicate();
                    events.push(started(&first));
                    self.next_call = 0;
                    self.pending = copy_calls(tc);
                    return (events, TurnStep::RunTool(first));
                }
            },
            None => {},
        }
        let m = SessionMessage {
            role: owned("assistant"),
            content: copy_opt(&resp.content),
            name: None,
            tool_calls: None,
            tool_call_id: None,
            timestamp: now,
        };
        proof {
            lemma_mviews_push(session.messages@, m);
        }
        session.messages.push(m);
        events.push(StreamEvent::TurnCompleted { total_tokens: resp.total_tokens });
        self.next_call = 0;
        self.pending = Vec::new();
        (events, TurnStep::Finished(self.final_content.clone()))
    }

    /// Takes in the model's reply as `on_model_reply_at` does, stamped with the current time.
    pub fn on_model_reply(&mut self, session: &mut Session, resp: &ChatResponse) -> (r: (
        Vec<StreamEvent>,
        TurnStep,
    ))
        requires
            old(self).awaits_model(),
        ensures
            exists|now: i64|
                model_replied(*old(self), *final(self), *old(session), *final(session), *resp, now, r.0@, r.1),
    {
        let now = now_millis();
        self.on_model_reply_at(session, resp, now)
    }

    /// Takes in the result of the pending tool call, stamping the new message `now`. The result
    /// is reported as an event and handed to the model as a tool message. Then the next pending
    /// call is to be run; or, when all are answered, the model is called again if the limit
    /// allows, else the turn finishes with the final reply so far.
    pub fn on_tool_result_at(&mut self, session: &mut Session, result: ToolResult, now: i64) -> (r: (
        Vec<StreamEvent>,
        TurnStep,
    ))
        requires
            !old(self).awaits_model(),
        ensures
            tool_answered(*old(self), *final(self), *old(session), *final(session), result, now, r.0@, r.1),
    {
        proof {
            use_type_invariant(&*self);
        }
        let idx = self.next_call;
        assert(idx < self.pending.len());
        let call = self.pending[idx].duplicate();
        let output = result.output;
        let done = StreamEvent::ToolCallCompleted {
            call_id: call.id.clone(),
            output: output.clone(),
            is_error: result.is_error,
        };
        let m = SessionMessage {
            role: owned("tool"),
            content: Some(output),
            name: Some(call.function.name.clone()),
            tool_calls: None,
            tool_call_id: Some(call.id.clone()),
            timestamp: now,
        };
        proof {
            lemma_mviews_push(session.messages@, m);
        }
        session.messages.push(m);
        let mut events: Vec<StreamEvent> = Vec::new();
        events.push(done);
        self.next_call = idx + 1;
        if self.next_call < self.pending.len() {
            let next = self.pending[self.next_call].duplicate();
            let e = started(&next);
            assert(events@.push(e) =~= seq![done, e]);
            events.push(e);
            return (events, TurnStep::RunTool(next));
        }
        if self.iterations < self.max_turns {
            self.iterations = self.iterations + 1;
            (events, TurnStep::CallModel)
        } else {
            (events, TurnStep::Finished(self.final_content.clone()))
        }
    }

    /// Takes in a tool result as `on_tool_result_at` does, stamped with the current time.
    pub fn on_tool_result(&mut self, session: &mut Session, result: ToolResult) -> (r: (
        Vec<StreamEvent>,
        TurnStep,
    ))
        requires
            !old(self).awaits_model(),
        ensures
            exists|now: i64|
                tool_answered(*old(self), *final(self), *old(session), *final(session), result, now, r.0@, r.1),
    {
        let now = now_millis();
        self.on_tool_result_at(session, result, now)
    }
}

/// One step of a turn: the driver `d1` and its request `next` follow from the driver `d0`
/// and its request `prev`, by a model reply when `prev` asked for one, by a tool result when
/// `prev` asked for a tool run; a finished turn has no next step.
pub open spec fn driver_step(d0: AgentRunner, prev: TurnStep, d1: AgentRunner, next: TurnStep) -> bool {
    match prev {
        TurnStep::CallModel => exists|s0: Session, s1: Session, resp: ChatResponse, now: i64, ev: Seq<StreamEvent>|
            #[trigger] model_replied(d0, d1, s0, s1, resp, now, ev, next),
        TurnStep::RunTool(_) => exists|s0: Session, s1: Session, res: ToolResult, now: i64, ev: Seq<StreamEvent>|
            #[trigger] tool_answered(d0, d1, s0, s1, res, now, ev, next),
        TurnStep::Finished(_) => false,
    }
}

/// A whole turn so far: the drivers and requests of its steps, from the start of the turn
/// with the limit `max_turns`.
pub open spec fn turn_run(ds: Seq<AgentRunner>, steps: Seq<TurnStep>, max_turns: usize) -> bool {
    &&& ds.len() == steps.len()
    &&& ds.len() > 0
    &&& exists|s0: Session, s1: Session, input: Seq<char>, now: i64|
        #[trigger] turn_begun(s0, s1, input, max_turns, now, ds[0], steps[0])
    &&& forall|i: int| 0 < i < ds.len() ==> #[trigger] step_at(ds, steps, i)
}

/// The step into position `i` of a run.
pub open spec fn step_at(ds: Seq<AgentRunner>, steps: Seq<TurnStep>, i: int) -> bool {
    driver_step(ds[i - 1], steps[i - 1], ds[i], steps[i])
}

/// How many of the requests ask for a model call.
pub open spec fn model_calls(steps: Seq<TurnStep>) -> nat
    decreases steps.len(),
{
    if steps.len() == 0 {
        0
    } else {
        model_calls(steps.drop_last()) + if steps.last() is CallModel {
            1nat
        } else {
            0nat
        }
    }
}

proof fn lemma_run_prefix(ds: Seq<AgentRunner>, steps: Seq<TurnStep>, max_turns: usize, k: int)
    requires
        turn_run(ds, steps, max_turns),
        0 <= k < ds.len(),
    ensures
        model_calls(steps.take(k + 1)) == ds[k].iterations(),
        ds[k].iterations() <= ds[k].max_turns(),
        ds[k].max_turns() == max_turns,
    decreases k,
{
    assert(steps.take(k + 1).drop_last() =~= steps.take(k));
    if k == 0 {
        let (s0, s1, input, now) = choose|s0: Session, s1: Session, input: Seq<char>, now: i64|
            #[trigger] turn_begun(s0, s1, input, max_turns, now, ds[0], steps[0]);
        assert(turn_begun(s0, s1, input, max_turns, now, ds[0], steps[0]));
        assert(steps.take(0) =~= Seq::<TurnStep>::empty());
        assert(steps.take(1).last() == steps[0]);
        assert(model_calls(steps.take(0)) == 0);
        assert(model_calls(steps.take(1)) == model_calls(steps.take(0)) + if steps[0] is CallModel {
            1nat
        } else {
            0nat
        });
    } else {
        lemma_run_prefix(ds, steps, max_turns, k - 1);
        assert(step_at(ds, steps, k));
        assert(steps.take(k + 1).last() == steps[k]);
        assert(model_calls(steps.take(k + 1)) == model_calls(steps.take(k)) + if steps[k] is CallModel {
            1nat
        } else {
            0nat
        });
        match steps[k - 1] {
            TurnStep::CallModel => {
                let (s0, s1, resp, now, ev) = choose|s0: Session, s1: Session, resp: ChatResponse, now: i64, ev: Seq<StreamEvent>|
                    #[trigger] model_replied(ds[k - 1], ds[k], s0, s1, resp, now, ev, steps[k]);
                assert(model_replied(ds[k - 1], ds[k], s0, s1, resp, now, ev, steps[k]));
            },
            TurnStep::RunTool(_) => {
                let (s0, s1, res, now, ev) = choose|s0: Session, s1: Session, res: ToolResult, now: i64, ev: Seq<StreamEvent>|
                    #[trigger] tool_answered(ds[k - 1], ds[k], s0, s1, res, now, ev, steps[k]);
                assert(tool_answered(ds[k - 1], ds[k], s0, s1, res, now, ev, steps[k]));
            },
            TurnStep::Finished(_) => {},
        }
    }
}

/// A turn never asks for more model calls than its limit: along any run of a turn, the
/// requests for a model call number exactly the model calls the driver counted, and at most
/// `max_turns`; with a limit of 0 the turn finishes at once, without a model call.
pub proof fn law_model_calls_bounded(ds: Seq<AgentRunner>, steps: Seq<TurnStep>, max_turns: usize)
    requires
        turn_run(ds, steps, max_turns),
    ensures
        model_calls(steps) == ds.last().iterations(),
        model_calls(steps) <= max_turns,
        max_turns == 0 ==> steps.len() == 1 && steps[0] is Finished && model_calls(steps) == 0,
{
    lemma_run_prefix(ds, steps, max_turns, ds.len() - 1);
    assert(steps.take(ds.len() as int) =~= steps);
    if max_turns == 0 {
        let (s0, s1, input, now) = choose|s0: Session, s1: Session, input: Seq<char>, now: i64|
            #[trigger] turn_begun(s0, s1, input, max_turns, now, ds[0], steps[0]);
        assert(turn_begun(s0, s1, input, max_turns, now, ds[0], steps[0]));
        if steps.len() > 1 {
            assert(step_at(ds, steps, 1));
        }
    }
}

/// A turn that ends right after a tool result, and not after a reply that asks for no tools,
/// ends because its limit is reached: the model was asked exactly `max_turns` times.
pub proof fn law_turn_after_tools_ends_at_limit(
    ds: Seq<AgentRunner>,
    steps: Seq<TurnStep>,
    max_turns: usize,
)
    requires
        turn_run(ds, steps, max_turns),
        ds.len() >= 2,
        steps.last() is Finished,
        steps[ds.len() - 2] is RunTool,
    ensures
        model_calls(steps) == max_turns,
{
    let n = ds.len() as int;
    law_model_calls_bounded(ds, steps, max_turns);
    lemma_run_prefix(ds, steps, max_turns, n - 2);
    assert(step_at(ds, steps, n - 1));
    let (s0, s1, res, now, ev) = choose|s0: Session, s1: Session, res: ToolResult, now: i64, ev: Seq<StreamEvent>|
        #[trigger] tool_answered(ds[n - 2], ds[n - 1], s0, s1, res, now, ev, steps[n - 1]);
    assert(tool_answered(ds[n - 2], ds[n - 1], s0, s1, res, now, ev, steps[n - 1]));
    assert(steps[n - 1] == steps.last());
}

/// What a step of a turn takes in: the model's reply, or the result of the pending tool call.
pub enum TurnInput {
    Reply(ChatResponse),
    Output(ToolResult),
}

/// The message a step adds to the session: the assistant's message for a model reply, or the
/// tool message answering the pending call for a tool result.
pub open spec fn step_message(d0: AgentRunner, input: TurnInput, now: i64) -> MessageView {
    match input {
        TurnInput::Reply(resp) => assistant_message(opt_chars(resp.content), reply_calls(resp), now),
        TurnInput::Output(res) => tool_message(d0.pending()[d0.answered() as int], res.output@, now),
    }
}

/// A step of a turn that took in `input` at `now`: a model reply where a model call was asked
/// for, a tool result where a tool run was.
pub open spec fn traced_step(
    d0: AgentRunner,
    s0: Session,
    prev: TurnStep,
    input: TurnInput,
    now: i64,
    d1: AgentRunner,
    s1: Session,
    ev: Seq<StreamEvent>,
    next: TurnStep,
) -> bool {
    match (prev, input) {
        (TurnStep::CallModel, TurnInput::Reply(resp)) => model_replied(d0, d1, s0, s1, resp, now, ev, next),
        (TurnStep::RunTool(_), TurnInput::Output(res)) => tool_answered(d0, d1, s0, s1, res, now, ev, next),
        _ => false,
    }
}

/// The step into position `i` of a turn's trace.
pub open spec fn traced_at(
    ds: Seq<AgentRunner>,
    ss: Seq<Session>,
    evs: Seq<Seq<StreamEvent>>,
    steps: Seq<TurnStep>,
    ins: Seq<TurnInput>,
    nows: Seq<i64>,
    i: int,
) -> bool {
    traced_step(ds[i - 1], ss[i - 1], steps[i - 1], ins[i], nows[i], ds[i], ss[i], evs[i], steps[i])
}

/// A turn as it ran so far on the session `s`, for the user's `input`, with the limit
/// `max_turns`: per step, the driver, the session after it, the events it reported and its
/// request; and, from the second step on, what the step took in and when (`nows[0]` is when
/// the turn began).
pub open spec fn turn_trace(
    s: Session,
    input: Seq<char>,
    max_turns: usize,
    ds: Seq<AgentRunner>,
    ss: Seq<Session>,
    evs: Seq<Seq<StreamEvent>>,
    steps: Seq<TurnStep>,
    ins: Seq<TurnInput>,
    nows: Seq<i64>,
) -> bool {
    &&& ds.len() > 0
    &&& ss.len() == ds.len()
    &&& evs.len() == ds.len()
    &&& steps.len() == ds.len()
    &&& ins.len() == ds.len()
    &&& nows.len() == ds.len()
    &&& turn_begun(s, ss[0], input, max_turns, nows[0], ds[0], steps[0])
    &&& evs[0].len() == 0
    &&& forall|i: int| 0 < i < ds.len() ==> #[trigger] traced_at(ds, ss, evs, steps, ins, nows, i)
}

/// Every model reply the turn took in asked for tools.
pub open spec fn replies_all_ask_for_tools(ins: Seq<TurnInput>) -> bool {
    forall|i: int|
        0 < i < ins.len() ==> ((#[trigger] ins[i]) matches TurnInput::Reply(resp) ==> asks_for_tools(resp))
}

/// No event reports a completed turn.
pub open spec fn no_completion(es: Seq<StreamEvent>) -> bool {
    forall|k: int| 0 <= k < es.len() ==> !((#[trigger] es[k]) is TurnCompleted)
}

proof fn lemma_flatten_no_completion(evs: Seq<Seq<StreamEvent>>)
    requires
        forall|i: int| 0 <= i < evs.len() ==> no_completion(#[trigger] evs[i]),
    ensures
        no_completion(evs.flatten()),
    decreases evs.len(),
{
    if evs.len() > 0 {
        let rest = evs.drop_first();
        assert forall|i: int| 0 <= i < rest.len() implies no_completion(#[trigger] rest[i]) by {
            assert(rest[i] == evs[i + 1]);
        }
        lemma_flatten_no_completion(rest);
        assert(no_completion(evs[0]));
        let f = evs.first() + rest.flatten();
        assert forall|k: int| 0 <= k < f.len() implies !((#[trigger] f[k]) is TurnCompleted) by {
            if k < evs[0].len() {
                assert(f[k] == evs[0][k]);
            } else {
                assert(f[k] == rest.flatten()[k - evs[0].len()]);
            }
        }
    }
}

proof fn lemma_trace_is_run(
    s: Session,
    input: Seq<char>,
    max_turns: usize,
    ds: Seq<AgentRunner>,
    ss: Seq<Session>,
    evs: Seq<Seq<StreamEvent>>,
    steps: Seq<TurnStep>,
    ins: Seq<TurnInput>,
    nows: Seq<i64>,
)
    requires
        turn_trace(s, input, max_turns, ds, ss, evs, steps, ins, nows),
    ensures
        turn_run(ds, steps, max_turns),
{
    assert(turn_begun(s, ss[0], input, max_turns, nows[0], ds[0], steps[0]));
    assert forall|i: int| 0 < i < ds.len() implies #[trigger] step_at(ds, steps, i) by {
        assert(traced_at(ds, ss, evs, steps, ins, nows, i));
        match (steps[i - 1], ins[i]) {
            (TurnStep::CallModel, TurnInput::Reply(resp)) => {
                assert(model_replied(ds[i - 1], ds[i], ss[i - 1], ss[i], resp, nows[i], evs[i], steps[i]));
            },
            (TurnStep::RunTool(_), TurnInput::Output(res)) => {
                assert(tool_answered(ds[i - 1], ds[i], ss[i - 1], ss[i], res, nows[i], evs[i], steps[i]));
            },
            _ => {},
        }
    }
}

proof fn lemma_trace_messages(
    s: Session,
    input: Seq<char>,
    max_turns: usize,
    ds: Seq<AgentRunner>,
    ss: Seq<Session>,
    evs: Seq<Seq<StreamEvent>>,
    steps: Seq<TurnStep>,
    ins: Seq<TurnInput>,
    nows: Seq<i64>,
    k: int,
)
    requires
        turn_trace(s, input, max_turns, ds, ss, evs, steps, ins, nows),
        0 <= k < ds.len(),
    ensures
        mviews(ss[k].messages@) == mviews(s.messages@).push(user_message(input, nows[0])) + Seq::new(
            k as nat,
            |j: int| step_message(ds[j], ins[j + 1], nows[j + 1]),
        ),
    decreases k,
{
    let f = |j: int| step_message(ds[j], ins[j + 1], nows[j + 1]);
    let base = mviews(s.messages@).push(user_message(input, nows[0]));
    if k == 0 {
        assert(base + Seq::new(0, f) =~= base);
    } else {
        lemma_trace_messages(s, input, max_turns, ds, ss, evs, steps, ins, nows, k - 1);
        assert(traced_at(ds, ss, evs, steps, ins, nows, k));
        assert(mviews(ss[k].messages@) == mviews(ss[k - 1].messages@).push(
            step_message(ds[k - 1], ins[k], nows[k]),
        ));
        assert(base + Seq::new(k as nat, f) =~= (base + Seq::new((k - 1) as nat, f)).push(f(k - 1)));
    }
}

proof fn lemma_trace_events(
    s: Session,
    input: Seq<char>,
    max_turns: usize,
    ds: Seq<AgentRunner>,
    ss: Seq<Session>,
    evs: Seq<Seq<StreamEvent>>,
    steps: Seq<TurnStep>,
    ins: Seq<TurnInput>,
    nows: Seq<i64>,
    i: int,
)
    requires
        turn_trace(s, input, max_turns, ds, ss, evs, steps, ins, nows),
        replies_all_ask_for_tools(ins),
        0 <= i < ds.len(),
    ensures
        no_completion(evs[i]),
{
    if i > 0 {
        assert(traced_at(ds, ss, evs, steps, ins, nows, i));
        match (steps[i - 1], ins[i]) {
            (TurnStep::CallModel, TurnInput::Reply(resp)) => {
                assert(asks_for_tools(resp));
                assert(model_replied(ds[i - 1], ds[i], ss[i - 1], ss[i], resp, nows[i], evs[i], steps[i]));
                let re = reply_events(resp);
                assert forall|k: int| 0 <= k < re.len() implies !((#[trigger] re[k]) is TurnCompleted) by {
                    match resp.reasoning_content {
                        Some(r) => {
                            if k == 0 {
                                assert(re[k] == StreamEvent::ReasoningDelta(r));
                            }
                        },
                        None => {},
                    }
                }
                let tc = resp.tool_calls->0@;
                assert(evs[i] == re.push(started_event(tc[0])));
                assert forall|k: int| 0 <= k < evs[i].len() implies !((#[trigger] evs[i][k]) is TurnCompleted) by {
                    if k < re.len() {
                        assert(evs[i][k] == re[k]);
                    }
                }
            },
            (TurnStep::RunTool(_), TurnInput::Output(res)) => {
                assert(tool_answered(ds[i - 1], ds[i], ss[i - 1], ss[i], res, nows[i], evs[i], steps[i]));
            },
            _ => {},
        }
    }
}

/// A turn, in one place: it asks for at most `max_turns` model calls; with a limit of 0 it
/// finishes at once with an empty reply, having added only the user's message; wherever it
/// stops (finished, or cut off by a failed model call or tool run), the session holds what it
/// held before, then the user's message, then one message per step taken, in order; and when
/// every model reply asked for tools, no event reports a completed turn and, once the turn has
/// finished, the model was asked exactly `max_turns` times.
pub proof fn law_turn(
    s: Session,
    input: Seq<char>,
    max_turns: usize,
    ds: Seq<AgentRunner>,
    ss: Seq<Session>,
    evs: Seq<Seq<StreamEvent>>,
    steps: Seq<TurnStep>,
    ins: Seq<TurnInput>,
    nows: Seq<i64>,
)
    requires
        turn_trace(s, input, max_turns, ds, ss, evs, steps, ins, nows),
    ensures
        model_calls(steps) == ds.last().iterations(),
        model_calls(steps) <= max_turns,
        max_turns == 0 ==> {
            &&& ds.len() == 1
            &&& steps[0] matches TurnStep::Finished(t) && t@.len() == 0
            &&& mviews(ss[0].messages@) == mviews(s.messages@).push(user_message(input, nows[0]))
        },
        mviews(ss.last().messages@) == mviews(s.messages@).push(user_message(input, nows[0])) + Seq::new(
            (ds.len() - 1) as nat,
            |j: int| step_message(ds[j], ins[j + 1], nows[j + 1]),
        ),
        replies_all_ask_for_tools(ins) ==> no_completion(evs.flatten()),
        replies_all_ask_for_tools(ins) && steps.last() is Finished ==> model_calls(steps) == max_turns,
{
    let n = ds.len() as int;
    lemma_trace_is_run(s, input, max_turns, ds, ss, evs, steps, ins, nows);
    law_model_calls_bounded(ds, steps, max_turns);
    lemma_trace_messages(s, input, max_turns, ds, ss, evs, steps, ins, nows, n - 1);
    if max_turns == 0 {
        lemma_trace_messages(s, input, max_turns, ds, ss, evs, steps, ins, nows, 0);
        assert(mviews(s.messages@).push(user_message(input, nows[0])) + Seq::new(
            0,
            |j: int| step_message(ds[j], ins[j + 1], nows[j + 1]),
        ) =~= mviews(s.messages@).push(user_message(input, nows[0])));
    }
    if replies_all_ask_for_tools(ins) {
        assert forall|i: int| 0 <= i < evs.len() implies no_completion(#[trigger] evs[i]) by {
            lemma_trace_events(s, input, max_turns, ds, ss, evs, steps, ins, nows, i);
        }
        lemma_flatten_no_completion(evs);
        if steps.last() is Finished {
            if n == 1 {
                assert(steps[0] == steps.last());
            } else {
                assert(traced_at(ds, ss, evs, steps, ins, nows, n - 1));
                assert(steps[n - 1] == steps.last());
                match (steps[n - 2], ins[n - 1]) {
                    (TurnStep::CallModel, TurnInput::Reply(resp)) => {
                        assert(asks_for_tools(resp));
                        assert(model_replied(ds[n - 2], ds[n - 1], ss[n - 2], ss[n - 1], resp, nows[n - 1], evs[n - 1], steps[n - 1]));
                    },
                    (TurnStep::RunTool(_), TurnInput::Output(res)) => {
                        law_turn_after_tools_ends_at_limit(ds, steps, max_turns);
                    },
                    _ => {},
                }
            }
        }
    }
}

/// The events of taking in the results of `calls` from the `i`-th on: each call's completion
/// with its result, followed by the start of the next call when there is one.
pub open spec fn answer_events(calls: Seq<ToolCall>, results: Seq<ToolResult>, i: int) -> Seq<StreamEvent>
    decreases calls.len() - i,
{
    if i < 0 || i >= calls.len() {
        Seq::empty()
    } else {
        let done = StreamEvent::ToolCallCompleted {
            call_id: calls[i].id,
            output: results[i].output,
            is_error: results[i].is_error,
        };
        if i + 1 < calls.len() {
            seq![done, started_event(calls[i + 1])] + answer_events(calls, results, i + 1)
        } else {
            seq![done]
        }
    }
}

/// The tool messages handed to the model for the first `k` calls of `calls`.
pub open spec fn answer_messages(
    calls: Seq<ToolCall>,
    results: Seq<ToolResult>,
    nows: Seq<i64>,
    k: int,
) -> Seq<MessageView> {
    Seq::new(k as nat, |j: int| tool_message(calls[j], results[j].output@, nows[j]))
}

/// Step `j` of answering a reply's calls.
pub open spec fn answer_at(
    ds: Seq<AgentRunner>,
    ss: Seq<Session>,
    results: Seq<ToolResult>,
    nows: Seq<i64>,
    evs: Seq<Seq<StreamEvent>>,
    steps: Seq<TurnStep>,
    j: int,
) -> bool {
    tool_answered(ds[j], ds[j + 1], ss[j], ss[j + 1], results[j], nows[j], evs[j], steps[j])
}

/// Taking in, one after another, the results of all the calls that the driver `ds[0]` has
/// pending and none answered: drivers, sessions, results, times, events and next requests of
/// those steps.
pub open spec fn answers_run(
    ds: Seq<AgentRunner>,
    ss: Seq<Session>,
    results: Seq<ToolResult>,
    nows: Seq<i64>,
    evs: Seq<Seq<StreamEvent>>,
    steps: Seq<TurnStep>,
) -> bool {
    &&& ds.len() == results.len() + 1
    &&& ss.len() == results.len() + 1
    &&& nows.len() == results.len()
    &&& evs.len() == results.len()
    &&& steps.len() == results.len()
    &&& ds[0].pending().len() == results.len()
    &&& ds[0].answered() == 0
    &&& forall|j: int| 0 <= j < results.len() ==> #[trigger] answer_at(ds, ss, results, nows, evs, steps, j)
}

proof fn lemma_answers_prefix(
    ds: Seq<AgentRunner>,
    ss: Seq<Session>,
    results: Seq<ToolResult>,
    nows: Seq<i64>,
    evs: Seq<Seq<StreamEvent>>,
    steps: Seq<TurnStep>,
    k: int,
)
    requires
        answers_run(ds, ss, results, nows, evs, steps),
        0 <= k <= results.len(),
    ensures
        ds[k].pending() == ds[0].pending(),
        ds[k].answered() == k,
        mviews(ss[k].messages@) == mviews(ss[0].messages@) + answer_messages(
            ds[0].pending(),
            results,
            nows,
            k,
        ),
    decreases k,
{
    let calls = ds[0].pending();
    if k == 0 {
        assert(answer_messages(calls, results, nows, 0) =~= Seq::<MessageView>::empty());
        assert(mviews(ss[0].messages@) + Seq::<MessageView>::empty() =~= mviews(ss[0].messages@));
    } else {
        lemma_answers_prefix(ds, ss, results, nows, evs, steps, k - 1);
        assert(answer_at(ds, ss, results, nows, evs, steps, k - 1));
        assert(answer_messages(calls, results, nows, k) =~= answer_messages(
            calls,
            results,
            nows,
            k - 1,
        ).push(tool_message(calls[k - 1], results[k - 1].output@, nows[k - 1])));
        assert(mviews(ss[k].messages@) =~= mviews(ss[0].messages@) + answer_messages(
            calls,
            results,
            nows,
            k,
        ));
    }
}

proof fn lemma_answers_events(
    ds: Seq<AgentRunner>,
    ss: Seq<Session>,
    results: Seq<ToolResult>,
    nows: Seq<i64>,
    evs: Seq<Seq<StreamEvent>>,
    steps: Seq<TurnStep>,
    i: int,
)
    requires
        answers_run(ds, ss, results, nows, evs, steps),
        0 <= i <= results.len(),
    ensures
        evs.skip(i).flatten() == answer_events(ds[0].pending(), results, i),
    decreases results.len() - i,
{
    let calls = ds[0].pending();
    let m = results.len() as int;
    if i == m {
        assert(evs.skip(i).len() == 0);
    } else {
        lemma_answers_events(ds, ss, results, nows, evs, steps, i + 1);
        lemma_answers_prefix(ds, ss, results, nows, evs, steps, i);
        lemma_answers_prefix(ds, ss, results, nows, evs, steps, i + 1);
        assert(answer_at(ds, ss, results, nows, evs, steps, i));
        assert(evs.skip(i).drop_first() =~= evs.skip(i + 1));
        assert(evs.skip(i).first() == evs[i]);
        let done = StreamEvent::ToolCallCompleted {
            call_id: calls[i].id,
            output: results[i].output,
            is_error: results[i].is_error,
        };
        if i + 1 < m {
            assert(!ds[i + 1].awaits_model());
            assert(evs[i] == seq![done, started_event(calls[i + 1])]);
        } else {
            assert(ds[i + 1].awaits_model());
            assert(evs[i] == seq![done]);
            assert(answer_events(calls, results, i + 1) =~= Seq::<StreamEvent>::empty());
            assert(seq![done] + Seq::<StreamEvent>::empty() =~= seq![done]);
        }
    }
}

/// Answering the calls of one reply keeps their order: the events report each call's
/// completion, with its own result, before the next call starts; the model is handed one tool
/// message per call, in the order of the calls; and afterwards the driver waits for the model.
pub proof fn law_tool_answers_in_order(
    ds: Seq<AgentRunner>,
    ss: Seq<Session>,
    results: Seq<ToolResult>,
    nows: Seq<i64>,
    evs: Seq<Seq<StreamEvent>>,
    steps: Seq<TurnStep>,
)
    requires
        answers_run(ds, ss, results, nows, evs, steps),
    ensures
        evs.flatten() == answer_events(ds[0].pending(), results, 0),
        mviews(ss.last().messages@) == mviews(ss[0].messages@) + answer_messages(
            ds[0].pending(),
            results,
            nows,
            results.len() as int,
        ),
        ds.last().awaits_model(),
{
    lemma_answers_events(ds, ss, results, nows, evs, steps, 0);
    assert(evs.skip(0) =~= evs);
    lemma_answers_prefix(ds, ss, results, nows, evs, steps, results.len() as int);
}

} // verus!
