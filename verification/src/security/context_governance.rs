//! Keeping the prompt sent to the model inside a token budget.
use vstd::prelude::*;
use crate::session::{
    copy_messages, extend_with_copies, lemma_next_user, mviews, next_user, sys_v,
    user_v, MessageView, SessionMessage, ToolCall,
};

verus! {

/// The token budget of a prompt.
#[derive(Debug, Clone)]
pub struct ContextGovernance {
    pub max_prompt_tokens: usize,
    pub reserve_completion_tokens: usize,
}

impl Default for ContextGovernance {
    fn default() -> (g: Self)
        ensures
            g.max_prompt_tokens == 128_000,
            g.reserve_completion_tokens == 4_096,
    {
        ContextGovernance { max_prompt_tokens: 128_000, reserve_completion_tokens: 4_096 }
    }
}

/// The weight of a character: 1 for ASCII, 2 otherwise.
pub open spec fn char_cost(c: char) -> nat {
    if (c as u32) < 128 {
        1
    } else {
        2
    }
}

/// The summed character weights of a text.
pub open spec fn char_weight(s: Seq<char>) -> nat
    decreases s.len(),
{
    if s.len() == 0 {
        0
    } else {
        char_weight(s.drop_last()) + char_cost(s.last())
    }
}

/// The estimated token count of a text: half its weight, plus one.
pub open spec fn estimate(s: Seq<char>) -> nat {
    char_weight(s) / 2 + 1
}

/// The estimated cost of the tool calls `cs`: the estimates of each name and arguments.
pub open spec fn calls_cost(cs: Seq<ToolCall>) -> nat
    decreases cs.len(),
{
    if cs.len() == 0 {
        0
    } else {
        calls_cost(cs.drop_last()) + estimate(cs.last().function.name@) + estimate(
            cs.last().function.arguments@,
        )
    }
}

/// The estimated cost of one message: 4 for its role, plus its content and its tool calls.
pub open spec fn msg_cost(m: MessageView) -> nat {
    4 + (match m.content {
        Some(c) => estimate(c),
        None => 0,
    }) + (match m.tool_calls {
        Some(cs) => calls_cost(cs),
        None => 0,
    })
}

/// The summed cost of the messages `ms[j..]`.
pub open spec fn cost_from(ms: Seq<MessageView>, j: int) -> nat
    decreases ms.len() - j,
{
    if j < 0 || j >= ms.len() {
        0
    } else {
        msg_cost(ms[j]) + cost_from(ms, j + 1)
    }
}

/// How many leading messages the window never starts at: 1 when the conversation opens with
/// a system message, else 0.
pub open spec fn head_len(ms: Seq<MessageView>) -> int {
    if ms.len() > 0 && sys_v(ms[0]) {
        1
    } else {
        0
    }
}

/// The leading system message, kept when it fits the budget by itself.
pub open spec fn kept_head(ms: Seq<MessageView>, budget: nat) -> Seq<MessageView> {
    if head_len(ms) == 1 && msg_cost(ms[0]) <= budget {
        seq![ms[0]]
    } else {
        seq![]
    }
}

/// The budget left for the window once the kept head is paid for.
pub open spec fn rest_budget(ms: Seq<MessageView>, budget: nat) -> nat {
    if kept_head(ms, budget).len() > 0 {
        (budget - msg_cost(ms[0])) as nat
    } else {
        budget
    }
}

/// The least index `k >= j` whose tail `ms[k..]` costs at most `rest`, or `ms.len()`.
pub open spec fn first_fit(ms: Seq<MessageView>, rest: nat, j: int) -> int
    decreases ms.len() - j,
{
    if j < 0 || j >= ms.len() {
        ms.len() as int
    } else if cost_from(ms, j) <= rest {
        j
    } else {
        first_fit(ms, rest, j + 1)
    }
}

/// Where the kept window starts: at the first user message of the longest tail after the
/// head that fits the budget left.
pub open spec fn window_start(ms: Seq<MessageView>, budget: nat) -> int {
    next_user(ms, first_fit(ms, rest_budget(ms, budget), head_len(ms)))
}

/// The prompt budget: the maximum less the reserve, or 0.
pub open spec fn budget_of(g: ContextGovernance) -> nat {
    if g.max_prompt_tokens >= g.reserve_completion_tokens {
        (g.max_prompt_tokens - g.reserve_completion_tokens) as nat
    } else {
        0
    }
}

/// What governing `ms` keeps: everything when the whole fits, else the leading system message
/// when it fits by itself, and the window.
pub open spec fn governed(ms: Seq<MessageView>, budget: nat) -> Seq<MessageView> {
    if cost_from(ms, 0) <= budget {
        ms
    } else {
        kept_head(ms, budget) + ms.skip(window_start(ms, budget))
    }
}

/// Every text that is estimated has a weight that a `usize` holds.
pub open spec fn message_weights_fit(m: MessageView) -> bool {
    &&& (m.content matches Some(c) ==> char_weight(c) <= usize::MAX)
    &&& (m.tool_calls matches Some(cs) ==> forall|k: int|
        0 <= k < cs.len() ==> char_weight(#[trigger] cs[k].function.name@) <= usize::MAX
            && char_weight(cs[k].function.arguments@) <= usize::MAX)
}

/// The costs of `ms` are computable in `usize` arithmetic.
pub open spec fn costs_fit(ms: Seq<MessageView>) -> bool {
    &&& cost_from(ms, 0) <= usize::MAX
    &&& forall|k: int| 0 <= k < ms.len() ==> message_weights_fit(#[trigger] ms[k])
}

proof fn lemma_weight_prefix(s: Seq<char>, k: int)
    requires
        0 <= k <= s.len(),
    ensures
        char_weight(s.take(k)) <= char_weight(s),
    decreases s.len() - k,
{
    if k < s.len() {
        lemma_weight_prefix(s, k + 1);
        assert(s.take(k + 1).drop_last() =~= s.take(k));
    } else {
        assert(s.take(k) =~= s);
    }
}

proof fn lemma_calls_prefix(cs: Seq<ToolCall>, k: int)
    requires
        0 <= k <= cs.len(),
    ensures
        calls_cost(cs.take(k)) <= calls_cost(cs),
    decreases cs.len() - k,
{
    if k < cs.len() {
        lemma_calls_prefix(cs, k + 1);
        assert(cs.take(k + 1).drop_last() =~= cs.take(k));
    } else {
        assert(cs.take(k) =~= cs);
    }
}

proof fn lemma_cost_monotone(ms: Seq<MessageView>, j: int, k: int)
    requires
        0 <= j <= k,
    ensures
        cost_from(ms, k) <= cost_from(ms, j),
    decreases k - j,
{
    if j < k {
        lemma_cost_monotone(ms, j + 1, k);
    }
}

/// The cost of a tail of `ms.skip(k)` is that of the same tail of `ms`.
proof fn lemma_cost_skip(ms: Seq<MessageView>, k: int, j: int)
    requires
        0 <= k <= ms.len(),
        0 <= j,
    ensures
        cost_from(ms.skip(k), j) == cost_from(ms, k + j),
    decreases ms.len() - (k + j),
{
    if k + j < ms.len() {
        lemma_cost_skip(ms, k, j + 1);
    }
}

/// The cost of a message followed by a run is the message's cost plus the run's.
proof fn lemma_cost_cons(h: MessageView, t: Seq<MessageView>)
    ensures
        cost_from(seq![h] + t, 0) == msg_cost(h) + cost_from(t, 0),
{
    let x = seq![h] + t;
    assert(x.skip(1) =~= t);
    lemma_cost_skip(x, 1, 0);
}

proof fn lemma_msg_le_total(ms: Seq<MessageView>, k: int)
    requires
        0 <= k < ms.len(),
    ensures
        msg_cost(ms[k]) <= cost_from(ms, 0),
{
    lemma_cost_monotone(ms, 0, k);
}

/// No index in `[j, m]` fits when the tail from `m` already overflows.
proof fn lemma_no_fit_below(ms: Seq<MessageView>, rest: nat, j: int, m: int)
    requires
        0 <= j <= m < ms.len(),
        cost_from(ms, m) > rest,
    ensures
        first_fit(ms, rest, j) == first_fit(ms, rest, m + 1),
    decreases m - j,
{
    lemma_cost_monotone(ms, j, m);
    if j < m {
        lemma_no_fit_below(ms, rest, j + 1, m);
    }
}

/// The weight of a text, when a `usize` holds it.
fn weight_checked(text: &str) -> (r: Option<usize>)
    ensures
        match r {
            Some(n) => n == char_weight(text@),
            None => char_weight(text@) > usize::MAX,
        },
{
    let mut tokens: usize = 0;
    let mut over = false;
    for c in it: text.chars()
        invariant
            it.seq() == text@,
            !over ==> tokens == char_weight(text@.take(it.index() as int)),
            over ==> char_weight(text@) > usize::MAX,
    {
        let ghost k = it.index() as int;
        proof {
            lemma_weight_prefix(text@, k + 1);
            assert(text@.take(k + 1).drop_last() =~= text@.take(k));
            assert(text@.take(k + 1).last() == c);
        }
        if !over {
            let w: usize = if (c as u32) < 128 {
                1
            } else {
                2
            };
            match tokens.checked_add(w) {
                Some(t) => {
                    tokens = t;
                },
                None => {
                    over = true;
                },
            }
        }
    }
    assert(text@.take(text@.len() as int) =~= text@);
    if over {
        None
    } else {
        Some(tokens)
    }
}

/// The cost of a message, when its texts' weights and its cost fit in `usize`.
fn message_cost_checked(m: &SessionMessage) -> (r: Option<usize>)
    ensures
        match r {
            Some(n) => message_weights_fit(m@) && n == msg_cost(m@),
            None => !message_weights_fit(m@) || msg_cost(m@) > usize::MAX,
        },
{
    let mut t: usize = 4;
    match &m.content {
        Some(c) => {
            match weight_checked(c.as_str()) {
                Some(w) => {
                    t = t + (w / 2 + 1);
                },
                None => {
                    return None;
                },
            }
        },
        None => {},
    }
    let ghost base = t as nat;
    match &m.tool_calls {
        Some(tc) => {
            let mut i: usize = 0;
            while i < tc.len()
                invariant
                    m.tool_calls == Some(*tc),
                    i <= tc.len(),
                    t == base + calls_cost(tc@.take(i as int)),
                    base + calls_cost(tc@) == msg_cost(m@),
                    m.content matches Some(c) ==> char_weight(c@) <= usize::MAX,
                    forall|k: int|
                        0 <= k < i ==> char_weight(#[trigger] tc@[k].function.name@) <= usize::MAX
                            && char_weight(tc@[k].function.arguments@) <= usize::MAX,
                decreases tc.len() - i,
            {
                proof {
                    lemma_calls_prefix(tc@, i + 1);
                    assert(tc@.take(i + 1).drop_last() =~= tc@.take(i as int));
                    assert(tc@.take(i + 1).last() == tc@[i as int]);
                }
                let a = match weight_checked(tc[i].function.name.as_str()) {
                    Some(w) => w / 2 + 1,
                    None => {
                        return None;
                    },
                };
                let b = match weight_checked(tc[i].function.arguments.as_str()) {
                    Some(w) => w / 2 + 1,
                    None => {
                        return None;
                    },
                };
                let s = match t.checked_add(a) {
                    Some(s) => s,
                    None => {
                        proof {
                            lemma_calls_prefix(tc@, i + 1);
                        }
                        return None;
                    },
                };
                t = match s.checked_add(b) {
                    Some(s2) => s2,
                    None => {
                        return None;
                    },
                };
                assert(char_weight(tc@[i as int].function.name@) <= usize::MAX);
                assert(char_weight(tc@[i as int].function.arguments@) <= usize::MAX);
                i = i + 1;
            }
            assert(tc@.take(tc@.len() as int) =~= tc@);
        },
        None => {},
    }
    Some(t)
}

impl ContextGovernance {
    /// Whether the token estimates of `messages` can be computed in `usize` arithmetic (the
    /// condition `govern_messages` needs).
    pub fn costs_within_limits(messages: &[SessionMessage]) -> (r: bool)
        ensures
            r == costs_fit(mviews(messages@)),
    {
        let ghost ms = mviews(messages@);
        let mut total: usize = 0;
        let mut j: usize = messages.len();
        while j > 0
            invariant
                ms == mviews(messages@),
                j <= ms.len(),
                total == cost_from(ms, j as int),
                forall|k: int| j <= k < ms.len() ==> message_weights_fit(#[trigger] ms[k]),
            decreases j,
        {
            j = j - 1;
            match message_cost_checked(&messages[j]) {
                Some(c) => match total.checked_add(c) {
                    Some(t) => {
                        total = t;
                    },
                    None => {
                        proof {
                            lemma_cost_monotone(ms, 0, j as int);
                        }
                        return false;
                    },
                },
                None => {
                    proof {
                        if message_weights_fit(ms[j as int]) {
                            lemma_cost_monotone(ms, 0, j as int);
                        }
                    }
                    return false;
                },
            }
        }
        true
    }

    /// Estimates the tokens of a text: one per two ASCII characters, one per other character,
    /// plus one.
    pub fn estimate_tokens(text: &str) -> (n: usize)
        requires
            char_weight(text@) <= usize::MAX,
        ensures
            n == estimate(text@),
    {
        let mut tokens: usize = 0;
        for c in it: text.chars()
            invariant
                it.seq() == text@,
                tokens == char_weight(text@.take(it.index() as int)),
                char_weight(text@) <= usize::MAX,
        {
            let ghost k = it.index() as int;
            proof {
                lemma_weight_prefix(text@, k + 1);
                assert(text@.take(k + 1).drop_last() =~= text@.take(k));
                assert(text@.take(k + 1).last() == c);
            }
            if (c as u32) < 128 {
                tokens = tokens + 1;
            } else {
                tokens = tokens + 2;
            }
        }
        assert(text@.take(text@.len() as int) =~= text@);
        tokens / 2 + 1
    }

    /// The estimated cost of one message.
    fn message_tokens(m: &SessionMessage, limit: Ghost<nat>) -> (n: usize)
        requires
            message_weights_fit(m@),
            msg_cost(m@) <= limit@,
            limit@ <= usize::MAX,
        ensures
            n == msg_cost(m@),
    {
        let mut t: usize = 4;
        match &m.content {
            Some(c) => {
                t = t + Self::estimate_tokens(c.as_str());
            },
            None => {},
        }
        let ghost base = t as nat;
        match &m.tool_calls {
            Some(tc) => {
                let mut i: usize = 0;
                while i < tc.len()
                    invariant
                        m.tool_calls == Some(*tc),
                        message_weights_fit(m@),
                        i <= tc.len(),
                        t == base + calls_cost(tc@.take(i as int)),
                        base + calls_cost(tc@) == msg_cost(m@),
                        msg_cost(m@) <= limit@,
                        limit@ <= usize::MAX,
                    decreases tc.len() - i,
                {
                    proof {
                        lemma_calls_prefix(tc@, i + 1);
                        assert(tc@.take(i + 1).drop_last() =~= tc@.take(i as int));
                        assert(tc@.take(i + 1).last() == tc@[i as int]);
                        let _ = tc@[i as int].function.name@;
                    }
                    let a = Self::estimate_tokens(tc[i].function.name.as_str());
                    let b = Self::estimate_tokens(tc[i].function.arguments.as_str());
                    t = t + a + b;
                    i = i + 1;
                }
                assert(tc@.take(tc@.len() as int) =~= tc@);
            },
            None => {},
        }
        t
    }

    /// Trims a conversation to the prompt budget (`max_prompt_tokens` less
    /// `reserve_completion_tokens`), so that the estimated cost of what is kept stays within
    /// it. When all messages fit, they are all kept. Otherwise the leading system message is
    /// kept when it fits by itself, followed by the longest tail that fits the budget left,
    /// advanced to its first user message.
    pub fn govern_messages(&self, messages: &[SessionMessage]) -> (out: Vec<SessionMessage>)
        requires
            costs_fit(mviews(messages@)),
        ensures
            mviews(out@) == governed(mviews(messages@), budget_of(*self)),
    {
        let budget = self.max_prompt_tokens.saturating_sub(self.reserve_completion_tokens);
        let ghost ms = mviews(messages@);
        let ghost b = budget as nat;
        assert(b == budget_of(*self));
        let n = messages.len();

        // per-message costs
        let mut tokens_per_msg: Vec<usize> = Vec::new();
        let mut k: usize = 0;
        while k < n
            invariant
                n == ms.len(),
                ms == mviews(messages@),
                costs_fit(ms),
                k <= n,
                tokens_per_msg@.len() == k,
                forall|q: int| 0 <= q < k ==> tokens_per_msg@[q] == msg_cost(#[trigger] ms[q]),
            decreases n - k,
        {
            proof {
                lemma_msg_le_total(ms, k as int);
            }
            let t = Self::message_tokens(&messages[k], Ghost(cost_from(ms, 0)));
            tokens_per_msg.push(t);
            k = k + 1;
        }

        // total cost, summed from the end
        let mut total: usize = 0;
        let mut j: usize = n;
        while j > 0
            invariant
                n == ms.len(),
                ms == mviews(messages@),
                costs_fit(ms),
                j <= n,
                tokens_per_msg@.len() == n,
                forall|q: int| 0 <= q < n ==> tokens_per_msg@[q] == msg_cost(#[trigger] ms[q]),
                total == cost_from(ms, j as int),
            decreases j,
        {
            proof {
                lemma_cost_monotone(ms, 0, j - 1);
            }
            j = j - 1;
            total = total + tokens_per_msg[j];
        }

        if total <= budget {
            return copy_messages(messages);
        }

        // the leading system message, when it fits by itself
        let head: usize = if n > 0 && messages[0].is_system_role() {
            1
        } else {
            0
        };
        assert(head == head_len(ms));
        let mut governed: Vec<SessionMessage> = Vec::new();
        let mut rest: usize = budget;
        if head == 1 && tokens_per_msg[0] <= budget {
            governed.push(messages[0].duplicate());
            rest = budget - tokens_per_msg[0];
        }
        proof {
            assert(mviews(governed@) =~= kept_head(ms, b));
        }
        assert(rest == rest_budget(ms, b));
        let ghost r = rest as nat;

        // longest fitting tail after the head
        let mut accumulated: usize = 0;
        let mut keep_from_idx: usize = n;
        let mut i: usize = n;
        while i > head
            invariant_except_break
                first_fit(ms, r, i as int) == keep_from_idx,
                accumulated == cost_from(ms, i as int),
            invariant
                n == ms.len(),
                ms == mviews(messages@),
                costs_fit(ms),
                head <= i <= n,
                tokens_per_msg@.len() == n,
                forall|q: int| 0 <= q < n ==> tokens_per_msg@[q] == msg_cost(#[trigger] ms[q]),
                accumulated <= rest,
                rest == r,
                keep_from_idx <= n,
            ensures
                first_fit(ms, r, head as int) == keep_from_idx,
            decreases i,
        {
            let idx = i - 1;
            proof {
                lemma_cost_monotone(ms, 0, idx as int);
            }
            if accumulated + tokens_per_msg[idx] > rest {
                proof {
                    lemma_no_fit_below(ms, r, head as int, idx as int);
                }
                break;
            }
            accumulated = accumulated + tokens_per_msg[idx];
            keep_from_idx = idx;
            i = idx;
        }

        // align to a user message
        while keep_from_idx < n && !messages[keep_from_idx].is_user_role()
            invariant
                n == ms.len(),
                ms == mviews(messages@),
                keep_from_idx <= n,
                next_user(ms, keep_from_idx as int) == next_user(ms, first_fit(ms, r, head as int)),
            decreases n - keep_from_idx,
        {
            keep_from_idx = keep_from_idx + 1;
        }
        proof {
            assert(keep_from_idx == window_start(ms, b));
        }

        extend_with_copies(&mut governed, messages, keep_from_idx);
        proof {
            assert(mviews(messages@.skip(keep_from_idx as int)) =~= ms.skip(keep_from_idx as int));
        }
        governed
    }
}

proof fn lemma_first_fit(ms: Seq<MessageView>, rest: nat, j: int)
    requires
        0 <= j <= ms.len(),
    ensures
        j <= first_fit(ms, rest, j) <= ms.len(),
        cost_from(ms, first_fit(ms, rest, j)) <= rest,
        forall|k: int| j <= k < first_fit(ms, rest, j) ==> cost_from(ms, k) > rest,
    decreases ms.len() - j,
{
    if j < ms.len() && cost_from(ms, j) > rest {
        lemma_first_fit(ms, rest, j + 1);
    }
}

/// Governing keeps the prompt within the budget and keeps the newest conversation that the
/// budget allows: when every message fits, nothing is dropped; otherwise the estimated cost of
/// what is kept is at most the budget; it is the leading system message (kept exactly when it
/// fits by itself) followed by a tail of the conversation from a user message on, and no
/// longer tail after the head that starts at a user message would fit the budget left.
pub proof fn law_governed_window(ms: Seq<MessageView>, budget: nat)
    ensures
        cost_from(governed(ms, budget), 0) <= budget,
        cost_from(ms, 0) <= budget ==> governed(ms, budget) == ms,
        cost_from(ms, 0) > budget ==> ({
            let w = window_start(ms, budget);
            let rest = rest_budget(ms, budget);
            &&& head_len(ms) <= w <= ms.len()
            &&& governed(ms, budget) == kept_head(ms, budget) + ms.skip(w)
            &&& (head_len(ms) == 1 ==> (kept_head(ms, budget).len() == 1 <==> msg_cost(ms[0]) <= budget))
            &&& (w < ms.len() ==> user_v(ms[w]))
            &&& cost_from(ms, w) <= rest
            &&& forall|j: int| head_len(ms) <= j < w && user_v(#[trigger] ms[j]) ==> cost_from(ms, j) > rest
        }),
{
    if cost_from(ms, 0) > budget {
        let h = head_len(ms);
        let rest = rest_budget(ms, budget);
        let f = first_fit(ms, rest, h);
        lemma_first_fit(ms, rest, h);
        lemma_next_user(ms, f);
        let w = window_start(ms, budget);
        lemma_cost_monotone(ms, f, w);
        lemma_cost_skip(ms, w, 0);
        let t = ms.skip(w);
        if kept_head(ms, budget).len() > 0 {
            lemma_cost_cons(ms[0], t);
            assert(kept_head(ms, budget) + t =~= seq![ms[0]] + t);
        } else {
            assert(kept_head(ms, budget) + t =~= t);
        }
        assert forall|j: int| h <= j < w && user_v(#[trigger] ms[j]) implies cost_from(ms, j) > rest by {
            if j >= f {
                assert(!user_v(ms[j]));
            }
        }
    }
}

} // verus!
