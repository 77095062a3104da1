//! Scheduled jobs: prompts that the agent runs at a fixed interval.
use vstd::prelude::*;
use crate::bus::InboundMessage;
use crate::text::{cat, i64_to_string, owned, signed_decimal, str_eq};

verus! {

/// A scheduled prompt. Times are in milliseconds since the Unix epoch.
#[derive(Debug, Clone)]
pub struct CronJob {
    pub id: String,
    pub title: String,
    pub prompt: String,
    pub interval_minutes: u64,
    pub enabled: bool,
    pub last_run: Option<i64>,
    pub next_run: i64,
}

/// The scheduled jobs, in the order they were added.
#[derive(Debug, Clone)]
pub struct CronSchedule {
    pub jobs: Vec<CronJob>,
}

/// Milliseconds in a minute.
pub open spec fn minute_ms() -> int {
    60_000
}

/// The interval of a new job: at least one minute.
pub open spec fn effective_interval(minutes: u64) -> u64 {
    if minutes < 1 {
        1
    } else {
        minutes
    }
}

/// The job is due at `now`.
pub open spec fn is_due(j: CronJob, now: i64) -> bool {
    j.enabled && now >= j.next_run
}

/// The job after firing at `now`.
pub open spec fn fired(j: CronJob, now: i64) -> CronJob {
    CronJob { last_run: Some(now), next_run: (now + j.interval_minutes * minute_ms()) as i64, ..j }
}

/// The next run of a due job is representable.
pub open spec fn reschedule_fits(j: CronJob, now: i64) -> bool {
    is_due(j, now) ==> now + j.interval_minutes * minute_ms() <= i64::MAX
}

/// The jobs after firing the due ones at `now`.
pub open spec fn after_firing(js: Seq<CronJob>, now: i64) -> Seq<CronJob> {
    js.map_values(|j: CronJob| if is_due(j, now) { fired(j, now) } else { j })
}

/// The due jobs, fired, in order.
pub open spec fn fired_jobs(js: Seq<CronJob>, now: i64) -> Seq<CronJob>
    decreases js.len(),
{
    if js.len() == 0 {
        seq![]
    } else if is_due(js.last(), now) {
        fired_jobs(js.drop_last(), now).push(fired(js.last(), now))
    } else {
        fired_jobs(js.drop_last(), now)
    }
}

/// The jobs whose id is not `id`, in order.
pub open spec fn without_id(js: Seq<CronJob>, id: Seq<char>) -> Seq<CronJob>
    decreases js.len(),
{
    if js.len() == 0 {
        seq![]
    } else if js.last().id@ == id {
        without_id(js.drop_last(), id)
    } else {
        without_id(js.drop_last(), id).push(js.last())
    }
}

impl CronJob {
    /// A copy of the job.
    pub fn duplicate(&self) -> (r: CronJob)
        ensures
            r == *self,
    {
        CronJob {
            id: self.id.clone(),
            title: self.title.clone(),
            prompt: self.prompt.clone(),
            interval_minutes: self.interval_minutes,
            enabled: self.enabled,
            last_run: self.last_run,
            next_run: self.next_run,
        }
    }

    /// The message that runs the job at `now`: id `cron_fire_<now>`, session `cron:<job id>`,
    /// channel `cron`, from `system_cron` (`CronScheduler`), with the job's prompt.
    pub fn inbound_at(&self, now: i64) -> (m: InboundMessage)
        ensures
            m.id@ == "cron_fire_"@ + signed_decimal(now as int),
            m.session_key@ == "cron:"@ + self.id@,
            m.channel@ == "cron"@,
            m.sender_id@ == "system_cron"@,
            m.sender_name matches Some(n) && n@ == "CronScheduler"@,
            m.content == self.prompt,
            m.media_urls@.len() == 0,
            m.created_at == now,
    {
        let n = i64_to_string(now);
        InboundMessage {
            id: cat("cron_fire_", n.as_str()),
            session_key: cat("cron:", self.id.as_str()),
            channel: owned("cron"),
            sender_id: owned("system_cron"),
            sender_name: Some(owned("CronScheduler")),
            content: self.prompt.clone(),
            media_urls: Vec::new(),
            created_at: now,
        }
    }
}

impl CronSchedule {
    /// No jobs.
    pub fn new() -> (s: CronSchedule)
        ensures
            s.jobs@.len() == 0,
    {
        CronSchedule { jobs: Vec::new() }
    }

    /// Adds a job created at `now`: id `cron_<now>`, enabled, never run, with an interval of at
    /// least one minute, first due one interval from now. Returns the job.
    pub fn add_at(&mut self, title: &str, prompt: &str, interval_minutes: u64, now: i64) -> (j: CronJob)
        requires
            now + effective_interval(interval_minutes) * minute_ms() <= i64::MAX,
        ensures
            j.id@ == "cron_"@ + signed_decimal(now as int),
            j.title@ == title@,
            j.prompt@ == prompt@,
            j.interval_minutes == effective_interval(interval_minutes),
            j.enabled,
            j.last_run is None,
            j.next_run == now + effective_interval(interval_minutes) * minute_ms(),
            final(self).jobs@ == old(self).jobs@.push(j),
    {
        let interval: u64 = if interval_minutes < 1 {
            1
        } else {
            interval_minutes
        };
        let n = i64_to_string(now);
        let next: i128 = (now as i128) + (interval as i128) * 60_000;
        let job = CronJob {
            id: cat("cron_", n.as_str()),
            title: owned(title),
            prompt: owned(prompt),
            interval_minutes: interval,
            enabled: true,
            last_run: None,
            next_run: next as i64,
        };
        self.jobs.push(job.duplicate());
        job
    }

    /// Deletes every job with id `id`; returns whether there was one.
    pub fn delete(&mut self, id: &str) -> (found: bool)
        ensures
            final(self).jobs@ == without_id(old(self).jobs@, id@),
            found == (exists|i: int| 0 <= i < old(self).jobs@.len() && old(self).jobs@[i].id@ == id@),
    {
        let ghost js = self.jobs@;
        let mut kept: Vec<CronJob> = Vec::new();
        let mut found = false;
        let mut i: usize = 0;
        while i < self.jobs.len()
            invariant
                js == self.jobs@,
                i <= js.len(),
                kept@ == without_id(js.take(i as int), id@),
                found == (exists|k: int| 0 <= k < i && js[k].id@ == id@),
            decreases js.len() - i,
        {
            proof {
                assert(js.take(i + 1).drop_last() =~= js.take(i as int));
                assert(js.take(i + 1).last() == js[i as int]);
            }
            if str_eq(self.jobs[i].id.as_str(), id) {
                found = true;
            } else {
                kept.push(self.jobs[i].duplicate());
            }
            i = i + 1;
        }
        assert(js.take(js.len() as int) =~= js);
        self.jobs = kept;
        found
    }

    /// Fires the jobs due at `now`: each enabled job with `now >= next_run` is marked run at
    /// `now` and rescheduled one interval later. Returns the fired jobs, in order.
    pub fn fire_due_at(&mut self, now: i64) -> (due: Vec<CronJob>)
        requires
            forall|i: int| 0 <= i < old(self).jobs@.len() ==> reschedule_fits(#[trigger] old(self).jobs@[i], now),
        ensures
            final(self).jobs@ == after_firing(old(self).jobs@, now),
            due@ == fired_jobs(old(self).jobs@, now),
    {
        let ghost js = self.jobs@;
        let mut updated: Vec<CronJob> = Vec::new();
        let mut due: Vec<CronJob> = Vec::new();
        let mut i: usize = 0;
        while i < self.jobs.len()
            invariant
                js == self.jobs@,
                i <= js.len(),
                forall|k: int| 0 <= k < js.len() ==> reschedule_fits(#[trigger] js[k], now),
                updated@ == after_firing(js.take(i as int), now),
                due@ == fired_jobs(js.take(i as int), now),
            decreases js.len() - i,
        {
            proof {
                assert(js.take(i + 1).drop_last() =~= js.take(i as int));
                assert(js.take(i + 1).last() == js[i as int]);
            }
            let mut j = self.jobs[i].duplicate();
            if j.enabled && now >= j.next_run {
                assert(reschedule_fits(js[i as int], now));
                let next: i128 = (now as i128) + (j.interval_minutes as i128) * 60_000;
                j.last_run = Some(now);
                j.next_run = next as i64;
                due.push(j.duplicate());
            }
            let ghost before = updated@;
            updated.push(j);
            proof {
                let a = after_firing(js.take(i + 1), now);
                assert forall|k: int| 0 <= k < a.len() implies updated@[k] == a[k] by {
                    if k < i {
                        assert(updated@[k] == before[k]);
                        assert(before[k] == after_firing(js.take(i as int), now)[k]);
                    }
                }
                assert(updated@ =~= a);
            }
            i = i + 1;
        }
        assert(js.take(js.len() as int) =~= js);
        self.jobs = updated;
        due
    }
}

/// `m` is the message that runs the job `j` at `now` (see `CronJob::inbound_at`).
pub open spec fn fire_message(m: InboundMessage, j: CronJob, now: i64) -> bool {
    &&& m.id@ == "cron_fire_"@ + signed_decimal(now as int)
    &&& m.session_key@ == "cron:"@ + j.id@
    &&& m.channel@ == "cron"@
    &&& m.sender_id@ == "system_cron"@
    &&& m.sender_name matches Some(n) && n@ == "CronScheduler"@
    &&& m.content == j.prompt
    &&& m.media_urls@.len() == 0
    &&& m.created_at == now
}

impl CronSchedule {
    /// One tick of the scheduler at `now`: the due jobs fire (see `fire_due_at`); the fired
    /// jobs are returned with the messages that run them, in the order of the jobs; and the
    /// schedule is to be saved exactly when some job fired.
    pub fn tick_at(&mut self, now: i64) -> (r: (Vec<CronJob>, Vec<InboundMessage>, bool))
        requires
            forall|i: int| 0 <= i < old(self).jobs@.len() ==> reschedule_fits(#[trigger] old(self).jobs@[i], now),
        ensures
            final(self).jobs@ == after_firing(old(self).jobs@, now),
            r.0@ == fired_jobs(old(self).jobs@, now),
            r.1@.len() == r.0@.len(),
            forall|k: int| 0 <= k < r.1@.len() ==> fire_message(#[trigger] r.1@[k], r.0@[k], now),
            r.2 == (r.0@.len() > 0),
    {
        let due = self.fire_due_at(now);
        let mut msgs: Vec<InboundMessage> = Vec::new();
        let mut i: usize = 0;
        while i < due.len()
            invariant
                i <= due@.len(),
                msgs@.len() == i,
                forall|k: int| 0 <= k < i ==> fire_message(#[trigger] msgs@[k], due@[k], now),
            decreases due@.len() - i,
        {
            let m = due[i].inbound_at(now);
            msgs.push(m);
            i = i + 1;
        }
        let save = due.len() > 0;
        (due, msgs, save)
    }
}

/// A tick comes at most one tick late: a job that is enabled and becomes due between two ticks
/// (after the first, by the second) is untouched by the first and fires at the second, which is
/// less than the gap between the ticks after its due time.
pub proof fn law_due_job_fires_at_next_tick(js: Seq<CronJob>, t1: i64, t2: i64, i: int)
    requires
        forall|k: int| 0 <= k < js.len() ==> reschedule_fits(#[trigger] js[k], t1),
        0 <= i < js.len(),
        js[i].enabled,
        t1 < js[i].next_run <= t2,
    ensures
        after_firing(js, t1)[i] == js[i],
        is_due(after_firing(js, t1)[i], t2),
        fired(after_firing(js, t1)[i], t2).last_run == Some(t2),
        t2 - js[i].next_run < t2 - t1,
{
}

/// Firing settles the schedule at an instant: after the jobs due at `now` fire, no job with an
/// interval of at least a minute is due at `now` again; each job that fired ran at `now` and is
/// next due one interval later; the jobs that were not due are as they were.
pub proof fn law_fired_jobs_not_due_again(js: Seq<CronJob>, now: i64)
    requires
        forall|i: int| 0 <= i < js.len() ==> reschedule_fits(#[trigger] js[i], now),
    ensures
        after_firing(js, now).len() == js.len(),
        forall|i: int|
            0 <= i < js.len() && is_due(js[i], now) && js[i].interval_minutes >= 1 ==> !is_due(
                #[trigger] after_firing(js, now)[i],
                now,
            ),
        forall|i: int|
            0 <= i < js.len() && is_due(js[i], now) ==> (#[trigger] after_firing(js, now)[i]).last_run
                == Some(now) && after_firing(js, now)[i].next_run == now + js[i].interval_minutes
                * minute_ms(),
        forall|i: int|
            0 <= i < js.len() && !is_due(js[i], now) ==> #[trigger] after_firing(js, now)[i] == js[i],
{
    assert forall|i: int|
        0 <= i < js.len() && is_due(js[i], now) && js[i].interval_minutes >= 1 implies !is_due(
        #[trigger] after_firing(js, now)[i],
        now,
    ) by {
        assert(reschedule_fits(js[i], now));
        assert(js[i].interval_minutes * minute_ms() >= minute_ms()) by (nonlinear_arith)
            requires
                js[i].interval_minutes >= 1,
                minute_ms() == 60_000,
        ;
    }
    assert forall|i: int| 0 <= i < js.len() && is_due(js[i], now) implies (#[trigger] after_firing(
        js,
        now,
    )[i]).last_run == Some(now) && after_firing(js, now)[i].next_run == now + js[i].interval_minutes
        * minute_ms() by {
        assert(reschedule_fits(js[i], now));
        assert(js[i].interval_minutes * minute_ms() >= 0) by (nonlinear_arith)
            requires
                minute_ms() == 60_000,
        ;
    }
}

/// Every job that has run is next due one interval after its last run.
pub open spec fn runs_spaced(js: Seq<CronJob>) -> bool {
    forall|i: int|
        0 <= i < js.len() ==> ((#[trigger] js[i]).last_run matches Some(r) ==> js[i].next_run == r
            + js[i].interval_minutes * minute_ms())
}

/// Firing keeps each job that has run due one interval after its last run; so, tick after
/// tick, a job never fires again within one interval of its last run.
pub proof fn law_runs_one_interval_apart(js: Seq<CronJob>, now: i64)
    requires
        runs_spaced(js),
        forall|i: int| 0 <= i < js.len() ==> reschedule_fits(#[trigger] js[i], now),
    ensures
        runs_spaced(after_firing(js, now)),
        forall|i: int|
            0 <= i < js.len() && is_due(#[trigger] js[i], now) ==> (js[i].last_run matches Some(r)
                ==> now >= r + js[i].interval_minutes * minute_ms()),
{
    let a = after_firing(js, now);
    assert forall|i: int| 0 <= i < a.len() implies ((#[trigger] a[i]).last_run matches Some(r)
        ==> a[i].next_run == r + a[i].interval_minutes * minute_ms()) by {
        assert(reschedule_fits(js[i], now));
        assert(js[i].interval_minutes * minute_ms() >= 0) by (nonlinear_arith)
            requires
                minute_ms() == 60_000,
        ;
    }
}

/// Deleting by id removes every job with that id and keeps every other job, in order; deleting
/// the same id again changes nothing.
pub proof fn law_delete_removes_only_id(js: Seq<CronJob>, id: Seq<char>)
    ensures
        forall|k: int| 0 <= k < without_id(js, id).len() ==> (#[trigger] without_id(js, id)[k]).id@ != id,
        forall|i: int| 0 <= i < js.len() && js[i].id@ != id ==> without_id(js, id).contains(#[trigger] js[i]),
        without_id(without_id(js, id), id) == without_id(js, id),
        without_id(js, id).len() <= js.len(),
    decreases js.len(),
{
    if js.len() > 0 {
        let pre = js.drop_last();
        law_delete_removes_only_id(pre, id);
        assert forall|i: int| 0 <= i < js.len() && js[i].id@ != id implies without_id(js, id).contains(
            #[trigger] js[i],
        ) by {
            if i < js.len() - 1 {
                assert(pre[i] == js[i]);
                let w = without_id(pre, id);
                let k = choose|k: int| 0 <= k < w.len() && w[k] == pre[i];
                if js.last().id@ != id {
                    assert(w.push(js.last())[k] == js[i]);
                }
            } else {
                assert(without_id(js, id).last() == js[i]);
            }
        }
        if js.last().id@ != id {
            let w = without_id(pre, id);
            assert(w.push(js.last()).drop_last() =~= w);
        }
    }
}

} // verus!
