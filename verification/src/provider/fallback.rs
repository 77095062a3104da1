//! The failover chain: after the primary model fails, each fallback model is tried once, in
//! order; when all fail, the primary's error is what the caller gets.
use vstd::prelude::*;
use crate::config::ModelConfig;
use crate::text::{owned, views};

verus! {

/// Where a chat stands in its failover chain.
#[derive(Debug)]
pub struct FallbackProvider {
    /// The fallback models, in the order they are tried.
    pub fallback_models: Vec<String>,
    /// How many fallbacks have been tried so far.
    pub tried: usize,
}

impl FallbackProvider {
    /// A chain over `fallback_models` where nothing has failed yet.
    pub fn new(fallback_models: Vec<String>) -> (p: FallbackProvider)
        ensures
            p.fallback_models@ == fallback_models@,
            p.tried == 0,
    {
        FallbackProvider { fallback_models, tried: 0 }
    }

    /// The chain of the configured fallback models, in order: the `default` model of each.
    pub fn from_models(models: &Vec<ModelConfig>) -> (p: FallbackProvider)
        ensures
            views(p.fallback_models@) == models@.map_values(|m: ModelConfig| m.default@),
            p.tried == 0,
    {
        let mut names: Vec<String> = Vec::new();
        let mut i: usize = 0;
        while i < models.len()
            invariant
                i <= models@.len(),
                views(names@) == models@.take(i as int).map_values(|m: ModelConfig| m.default@),
            decreases models@.len() - i,
        {
            let n = owned(models[i].default.as_str());
            proof {
                crate::text::lemma_views_push(names@, n);
                assert(models@.take(i + 1).map_values(|m: ModelConfig| m.default@) =~= models@.take(
                    i as int,
                ).map_values(|m: ModelConfig| m.default@).push(models@[i as int].default@));
            }
            names.push(n);
            i = i + 1;
        }
        assert(models@.take(models@.len() as int) =~= models@);
        FallbackProvider::new(names)
    }

    /// The last attempt failed: the next fallback to try, by its index and model, or `None`
    /// when every fallback has been tried and the primary's error is returned.
    pub fn after_failure(&mut self) -> (r: Option<(usize, String)>)
        ensures
            failover_step(*old(self), *final(self), r),
    {
        if self.tried < self.fallback_models.len() {
            let i = self.tried;
            let m = owned(self.fallback_models[i].as_str());
            self.tried = i + 1;
            Some((i, m))
        } else {
            None
        }
    }
}

/// Handling one failure: the chain `p1` and the answer `r` follow from the chain `p0`. While a
/// fallback is left, the next one is answered, by index and model, and counted as tried; after
/// the last, the answer is `None` and nothing changes.
pub open spec fn failover_step(p0: FallbackProvider, p1: FallbackProvider, r: Option<(usize, String)>) -> bool {
    &&& p1.fallback_models@ == p0.fallback_models@
    &&& p0.tried < p0.fallback_models@.len() ==> {
        &&& r matches Some((i, m))
        &&& i == p0.tried
        &&& m@ == p0.fallback_models@[i as int]@
        &&& p1.tried == p0.tried + 1
    }
    &&& p0.tried >= p0.fallback_models@.len() ==> r is None && p1.tried == p0.tried
}

/// What the `i`-th failure (counted from 0) of a fresh chain over `models` answers: the
/// fallback at `i` while there is one, else nothing.
pub open spec fn failover_answer(models: Seq<String>, i: int) -> Option<(usize, Seq<char>)> {
    if 0 <= i < models.len() {
        Some((i as usize, models[i]@))
    } else {
        None
    }
}

/// An answer by its view.
pub open spec fn answer_view(r: Option<(usize, String)>) -> Option<(usize, Seq<char>)> {
    match r {
        Some((i, m)) => Some((i, m@)),
        None => None,
    }
}

/// The failure handled into position `i` of a run.
pub open spec fn failover_at(ps: Seq<FallbackProvider>, rs: Seq<Option<(usize, String)>>, i: int) -> bool {
    failover_step(ps[i], ps[i + 1], rs[i])
}

proof fn lemma_failover_prefix(ps: Seq<FallbackProvider>, rs: Seq<Option<(usize, String)>>, k: int)
    requires
        ps.len() == rs.len() + 1,
        ps[0].tried == 0,
        forall|i: int| 0 <= i < rs.len() ==> #[trigger] failover_at(ps, rs, i),
        0 <= k < ps.len(),
    ensures
        ps[k].fallback_models@ == ps[0].fallback_models@,
        ps[k].tried == if k < ps[0].fallback_models@.len() {
            k
        } else {
            ps[0].fallback_models@.len() as int
        },
    decreases k,
{
    if k > 0 {
        lemma_failover_prefix(ps, rs, k - 1);
        assert(failover_at(ps, rs, k - 1));
    }
}

/// Over a whole chat, the fallbacks are tried once each, in order, and then the chain gives
/// up: the `i`-th failure of a fresh chain is answered with the fallback at `i` while there is
/// one, and with `None` after the last.
pub proof fn law_fallbacks_in_order(ps: Seq<FallbackProvider>, rs: Seq<Option<(usize, String)>>)
    requires
        ps.len() == rs.len() + 1,
        ps[0].tried == 0,
        forall|i: int| 0 <= i < rs.len() ==> #[trigger] failover_at(ps, rs, i),
    ensures
        forall|i: int| 0 <= i < rs.len() ==> #[trigger] answer_view(rs[i]) == failover_answer(
            ps[0].fallback_models@,
            i,
        ),
{
    assert forall|i: int| 0 <= i < rs.len() implies #[trigger] answer_view(rs[i]) == failover_answer(
        ps[0].fallback_models@,
        i,
    ) by {
        lemma_failover_prefix(ps, rs, i);
        assert(failover_at(ps, rs, i));
    }
}

/// What a chat does after an attempt.
pub enum ChatDecision<R, E> {
    /// The attempt succeeded: its reply is the answer.
    Reply(R),
    /// Try the fallback at `index`, with its `model`.
    Try { index: usize, model: String },
    /// Every attempt failed: the primary's error is the answer.
    Fail(E),
}

/// The error of a failed outcome.
pub open spec fn error_of<R, E>(o: Result<R, E>) -> Option<E> {
    match o {
        Ok(_) => None,
        Err(e) => Some(e),
    }
}

/// Taking in the outcome of an attempt: the chain `p1`, the kept primary error `e1` and the
/// decision `d` follow from the chain `p0` and the kept error `e0`. A success is the answer and
/// changes nothing. A failure is handled as `failover_step` says, the primary's error being
/// kept (the first failure's, when none was kept yet): the next fallback is tried while there
/// is one; after the last, the kept error is the answer.
pub open spec fn chat_step<R, E>(
    p0: FallbackProvider,
    p1: FallbackProvider,
    e0: Option<E>,
    e1: Option<E>,
    outcome: Result<R, E>,
    d: ChatDecision<R, E>,
) -> bool {
    match outcome {
        Ok(r) => d == ChatDecision::<R, E>::Reply(r) && p1 == p0 && e1 == e0,
        Err(e) => {
            let kept = match e0 {
                Some(x) => x,
                None => e,
            };
            &&& p1.fallback_models@ == p0.fallback_models@
            &&& p0.tried < p0.fallback_models@.len() ==> {
                &&& d matches ChatDecision::Try { index, model }
                &&& index == p0.tried
                &&& model@ == p0.fallback_models@[index as int]@
                &&& p1.tried == p0.tried + 1
                &&& e1 == Some(kept)
            }
            &&& p0.tried >= p0.fallback_models@.len() ==> {
                &&& d == ChatDecision::<R, E>::Fail(kept)
                &&& p1.tried == p0.tried
                &&& e1 is None
            }
        },
    }
}

impl FallbackProvider {
    /// Takes in the outcome of the latest attempt of a chat (the primary's first), with the
    /// primary's error kept in `primary_error` once it failed: see `chat_step`.
    pub fn on_attempt<R, E>(&mut self, outcome: Result<R, E>, primary_error: &mut Option<E>) -> (d:
        ChatDecision<R, E>)
        ensures
            chat_step(*old(self), *final(self), *old(primary_error), *final(primary_error), outcome, d),
    {
        match outcome {
            Ok(r) => ChatDecision::Reply(r),
            Err(e) => {
                let kept = match primary_error.take() {
                    Some(x) => x,
                    None => e,
                };
                match self.after_failure() {
                    Some((index, model)) => {
                        *primary_error = Some(kept);
                        ChatDecision::Try { index, model }
                    },
                    None => ChatDecision::Fail(kept),
                }
            },
        }
    }
}

/// The attempt taken in at position `i` of a chat.
pub open spec fn chat_at<R, E>(
    ps: Seq<FallbackProvider>,
    es: Seq<Option<E>>,
    outs: Seq<Result<R, E>>,
    ds: Seq<ChatDecision<R, E>>,
    i: int,
) -> bool {
    chat_step(ps[i], ps[i + 1], es[i], es[i + 1], outs[i], ds[i])
}

/// A whole chat: a fresh chain with no kept error takes in the outcomes of its attempts, the
/// primary's first, and goes on only while the decision is to try a fallback.
pub open spec fn chat_run<R, E>(
    ps: Seq<FallbackProvider>,
    es: Seq<Option<E>>,
    outs: Seq<Result<R, E>>,
    ds: Seq<ChatDecision<R, E>>,
) -> bool {
    &&& outs.len() > 0
    &&& ps.len() == outs.len() + 1
    &&& es.len() == outs.len() + 1
    &&& ds.len() == outs.len()
    &&& ps[0].tried == 0
    &&& es[0] is None
    &&& forall|i: int| 0 <= i < outs.len() ==> #[trigger] chat_at(ps, es, outs, ds, i)
    &&& forall|i: int| 0 <= i < outs.len() - 1 ==> #[trigger] ds[i] is Try
}

proof fn lemma_chat_prefix<R, E>(
    ps: Seq<FallbackProvider>,
    es: Seq<Option<E>>,
    outs: Seq<Result<R, E>>,
    ds: Seq<ChatDecision<R, E>>,
    k: int,
)
    requires
        chat_run(ps, es, outs, ds),
        0 <= k < outs.len(),
    ensures
        ps[k].fallback_models@ == ps[0].fallback_models@,
        ps[k].tried == k,
        k <= ps[0].fallback_models@.len(),
        k == 0 ==> es[k] is None,
        k > 0 ==> es[k] == error_of(outs[0]) && outs[0] is Err,
    decreases k,
{
    if k > 0 {
        lemma_chat_prefix(ps, es, outs, ds, k - 1);
        assert(chat_at(ps, es, outs, ds, k - 1));
        assert(ds[k - 1] is Try);
    }
}

/// Over a whole chat the primary is tried first and then each fallback once, in order, until
/// one succeeds: every attempt but the last failed; the attempt after the `i`-th is made with
/// the fallback at `i`; a success is the answer, as it came; and when every attempt failed,
/// after the primary and all the fallbacks, the answer is the primary's error.
pub proof fn law_fallback_chat<R, E>(
    ps: Seq<FallbackProvider>,
    es: Seq<Option<E>>,
    outs: Seq<Result<R, E>>,
    ds: Seq<ChatDecision<R, E>>,
)
    requires
        chat_run(ps, es, outs, ds),
    ensures
        outs.len() <= ps[0].fallback_models@.len() + 1,
        forall|i: int| 0 <= i < outs.len() - 1 ==> #[trigger] outs[i] is Err,
        forall|i: int|
            0 <= i < outs.len() - 1 ==> (#[trigger] ds[i] matches ChatDecision::Try { index, model }
                && index == i && model@ == ps[0].fallback_models@[i]@),
        outs.last() matches Ok(r) ==> ds.last() == ChatDecision::<R, E>::Reply(r),
        ds.last() matches ChatDecision::Fail(e) ==> outs.len() == ps[0].fallback_models@.len() + 1
            && error_of(outs[0]) == Some(e),
{
    let n = outs.len() as int;
    assert forall|i: int| 0 <= i < n - 1 implies #[trigger] outs[i] is Err by {
        lemma_chat_prefix(ps, es, outs, ds, i);
        assert(chat_at(ps, es, outs, ds, i));
        assert(ds[i] is Try);
    }
    assert forall|i: int| 0 <= i < n - 1 implies (#[trigger] ds[i] matches ChatDecision::Try {
        index,
        model,
    } && index == i && model@ == ps[0].fallback_models@[i]@) by {
        lemma_chat_prefix(ps, es, outs, ds, i);
        assert(chat_at(ps, es, outs, ds, i));
        assert(ds[i] is Try);
    }
    lemma_chat_prefix(ps, es, outs, ds, n - 1);
    assert(chat_at(ps, es, outs, ds, n - 1));
}

} // verus!