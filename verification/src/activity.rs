//! In-flight work and client presence, for the idle lifecycle and the idle
//! shutdown of the daemon.
//!
//! Times are milliseconds on a monotonic clock read at the edge of the program;
//! a reading earlier than a recorded time counts as no time elapsed.
use vstd::prelude::*;

verus! {

/// Tracks in-flight work and client presence for idle lifecycle and shutdown.
pub struct ActivityTracker {
    pub active_work: u64,
    pub last_work_at: u64,
    pub last_client_contact_at: u64,
}

/// Handed out for one unit of in-flight work; give it back with
/// [`ActivityTracker::finish_work`] when the work ends.
pub struct WorkGuard {
    pub started: bool,
}

/// Milliseconds from `from` to `now` (zero when `now` is earlier).
pub open spec fn elapsed_ms(from: u64, now: u64) -> nat {
    if now >= from {
        (now - from) as nat
    } else {
        0
    }
}

pub open spec fn max_u64(a: u64, b: u64) -> u64 {
    if a >= b {
        a
    } else {
        b
    }
}

/// One call on the tracker: begin work, end work at a time, or a client contact
/// at a time.
pub enum ActivityOp {
    Track,
    Finish(u64),
    Contact(u64),
}

/// The tracker after one call.
pub open spec fn activity_step(t: ActivityTracker, op: ActivityOp) -> ActivityTracker {
    match op {
        ActivityOp::Track => ActivityTracker { active_work: (t.active_work + 1) as u64, ..t },
        ActivityOp::Finish(now) => ActivityTracker {
            active_work: (t.active_work - 1) as u64,
            last_work_at: if t.active_work == 1 {
                now
            } else {
                t.last_work_at
            },
            ..t
        },
        ActivityOp::Contact(now) => ActivityTracker { last_client_contact_at: now, ..t },
    }
}

impl ActivityTracker {
    /// Last time the daemon saw work finish or a client.
    pub open spec fn last_activity(&self) -> u64 {
        max_u64(self.last_work_at, self.last_client_contact_at)
    }

    pub open spec fn busy(&self) -> bool {
        self.active_work > 0
    }

    /// Idle shutdown is due: a budget is set, no work runs, and the budget has
    /// passed since the last activity.
    pub open spec fn shutdown_due(&self, budget_secs: u64, now_ms: u64) -> bool {
        budget_secs != 0 && !self.busy() && elapsed_ms(self.last_activity(), now_ms) >= budget_secs
            * 1000
    }

    pub fn new(started_at_ms: u64) -> (t: ActivityTracker)
        ensures
            t.active_work == 0,
            t.last_work_at == started_at_ms,
            t.last_client_contact_at == started_at_ms,
    {
        ActivityTracker {
            active_work: 0,
            last_work_at: started_at_ms,
            last_client_contact_at: started_at_ms,
        }
    }

    /// Begin one unit of work.
    pub fn track_work(&mut self) -> (g: WorkGuard)
        requires
            old(self).active_work < u64::MAX,
        ensures
            final(self).active_work == old(self).active_work + 1,
            final(self).last_work_at == old(self).last_work_at,
            final(self).last_client_contact_at == old(self).last_client_contact_at,
            *final(self) == activity_step(*old(self), ActivityOp::Track),
    {
        self.active_work = self.active_work + 1;
        WorkGuard { started: true }
    }

    /// End one unit of work at `now_ms`; the last one to end stamps the work time.
    pub fn finish_work(&mut self, guard: WorkGuard, now_ms: u64)
        requires
            old(self).active_work > 0,
        ensures
            final(self).active_work == old(self).active_work - 1,
            final(self).last_work_at == if old(self).active_work == 1 {
                now_ms
            } else {
                old(self).last_work_at
            },
            final(self).last_client_contact_at == old(self).last_client_contact_at,
            *final(self) == activity_step(*old(self), ActivityOp::Finish(now_ms)),
    {
        let previous = self.active_work;
        self.active_work = previous - 1;
        if previous == 1 {
            self.last_work_at = now_ms;
        }
    }

    pub fn record_client_contact(&mut self, now_ms: u64)
        ensures
            final(self).last_client_contact_at == now_ms,
            final(self).active_work == old(self).active_work,
            final(self).last_work_at == old(self).last_work_at,
            *final(self) == activity_step(*old(self), ActivityOp::Contact(now_ms)),
    {
        self.last_client_contact_at = now_ms;
    }

    pub fn is_busy(&self) -> (b: bool)
        ensures
            b == self.busy(),
    {
        self.active_work > 0
    }

    /// `ready` while work runs, otherwise `idle`.
    pub fn lifecycle_state(&self) -> (s: &'static str)
        ensures
            s@ == if self.busy() {
                "ready"@
            } else {
                "idle"@
            },
    {
        if self.is_busy() {
            "ready"
        } else {
            "idle"
        }
    }

    /// Whole seconds since work last ended (zero while busy).
    pub fn idle_seconds(&self, now_ms: u64) -> (s: u64)
        ensures
            s == if self.busy() {
                0
            } else {
                elapsed_ms(self.last_work_at, now_ms) / 1000
            },
    {
        if self.is_busy() {
            return 0;
        }
        let e = if now_ms >= self.last_work_at {
            now_ms - self.last_work_at
        } else {
            0
        };
        e / 1000
    }

    fn last_activity_at(&self) -> (t: u64)
        ensures
            t == self.last_activity(),
    {
        if self.last_work_at >= self.last_client_contact_at {
            self.last_work_at
        } else {
            self.last_client_contact_at
        }
    }

    /// Seconds left in the idle budget (zero without a budget).
    pub fn seconds_until_shutdown(&self, budget_secs: u64, now_ms: u64) -> (s: u64)
        ensures
            s == if budget_secs == 0 {
                0
            } else if budget_secs >= elapsed_ms(self.last_activity(), now_ms) / 1000 {
                (budget_secs - elapsed_ms(self.last_activity(), now_ms) / 1000) as u64
            } else {
                0
            },
    {
        if budget_secs == 0 {
            return 0;
        }
        let last = self.last_activity_at();
        let e = if now_ms >= last {
            now_ms - last
        } else {
            0
        };
        let secs = e / 1000;
        if budget_secs >= secs {
            budget_secs - secs
        } else {
            0
        }
    }

    /// Whether the idle budget has run out.
    pub fn should_shutdown(&self, budget_secs: u64, now_ms: u64) -> (b: bool)
        ensures
            b == self.shutdown_due(budget_secs, now_ms),
    {
        if budget_secs == 0 || self.is_busy() {
            return false;
        }
        let last = self.last_activity_at();
        let e: u64 = if now_ms >= last {
            now_ms - last
        } else {
            0
        };
        (e as u128) >= (budget_secs as u128) * 1000
    }
}

/// Work in flight always holds off the idle shutdown.
pub proof fn law_busy_prevents_shutdown(t: ActivityTracker, budget_secs: u64, now_ms: u64)
    requires
        t.busy(),
    ensures
        !t.shutdown_due(budget_secs, now_ms),
{
}

/// Client contact restarts the idle budget: right after it, no shutdown is due.
pub proof fn law_contact_delays_shutdown(t: ActivityTracker, budget_secs: u64, now_ms: u64)
    requires
        budget_secs > 0,
        t.last_client_contact_at == now_ms,
    ensures
        !t.shutdown_due(budget_secs, now_ms),
{
}

/// The tracker after a sequence of calls, first to last.
pub open spec fn activity_run(t: ActivityTracker, ops: Seq<ActivityOp>) -> ActivityTracker
    decreases ops.len(),
{
    if ops.len() == 0 {
        t
    } else {
        activity_step(activity_run(t, ops.drop_last()), ops.last())
    }
}

/// Every call in the sequence meets its `requires`: work is begun below the
/// counter's limit and ended only while some runs.
pub open spec fn activity_calls_valid(t: ActivityTracker, ops: Seq<ActivityOp>) -> bool
    decreases ops.len(),
{
    if ops.len() == 0 {
        true
    } else {
        &&& activity_calls_valid(t, ops.drop_last())
        &&& match ops.last() {
            ActivityOp::Track => activity_run(t, ops.drop_last()).active_work < u64::MAX,
            ActivityOp::Finish(_) => activity_run(t, ops.drop_last()).active_work > 0,
            ActivityOp::Contact(_) => true,
        }
    }
}

/// How many calls of the sequence begin work.
pub open spec fn tracks_in(ops: Seq<ActivityOp>) -> nat
    decreases ops.len(),
{
    if ops.len() == 0 {
        0
    } else {
        tracks_in(ops.drop_last()) + if ops.last() is Track {
            1nat
        } else {
            0nat
        }
    }
}

/// How many calls of the sequence end work.
pub open spec fn finishes_in(ops: Seq<ActivityOp>) -> nat
    decreases ops.len(),
{
    if ops.len() == 0 {
        0
    } else {
        finishes_in(ops.drop_last()) + if ops.last() is Finish {
            1nat
        } else {
            0nat
        }
    }
}

/// The time of the last call that ends work, if any.
pub open spec fn last_finish_at(ops: Seq<ActivityOp>) -> Option<u64>
    decreases ops.len(),
{
    if ops.len() == 0 {
        None
    } else {
        match ops.last() {
            ActivityOp::Finish(now) => Some(now),
            _ => last_finish_at(ops.drop_last()),
        }
    }
}

/// Work guards balance: after any valid sequence of calls the tracker counts
/// the units begun minus the units ended, and is busy exactly while that
/// count is positive.
pub proof fn law_work_count_balances(t: ActivityTracker, ops: Seq<ActivityOp>)
    requires
        activity_calls_valid(t, ops),
    ensures
        activity_run(t, ops).active_work == t.active_work + tracks_in(ops) - finishes_in(ops),
        activity_run(t, ops).busy() <==> t.active_work + tracks_in(ops) > finishes_in(ops),
    decreases ops.len(),
{
    if ops.len() > 0 {
        law_work_count_balances(t, ops.drop_last());
    }
}

/// An idle tracker measures its idle time from the last call that ended work:
/// after a valid sequence that leaves no work running, the work time is the
/// time of the last `finish_work` in it (or the starting one when there was
/// none).
pub proof fn law_idle_since_last_finish(t: ActivityTracker, ops: Seq<ActivityOp>)
    requires
        activity_calls_valid(t, ops),
        !activity_run(t, ops).busy(),
    ensures
        activity_run(t, ops).last_work_at == match last_finish_at(ops) {
            Some(now) => now,
            None => t.last_work_at,
        },
    decreases ops.len(),
{
    if ops.len() > 0 {
        let prev = ops.drop_last();
        lemma_run_work_monotone_after_last_finish(t, ops);
        match ops.last() {
            ActivityOp::Finish(_) => {},
            ActivityOp::Track => {},
            ActivityOp::Contact(_) => {
                law_idle_since_last_finish(t, prev);
            },
        }
    }
}

/// Without a finish in the sequence the work time never moves; the count
/// never falls below where it was after the last finish.
proof fn lemma_run_work_monotone_after_last_finish(t: ActivityTracker, ops: Seq<ActivityOp>)
    requires
        activity_calls_valid(t, ops),
    ensures
        last_finish_at(ops) is None ==> activity_run(t, ops).last_work_at == t.last_work_at,
    decreases ops.len(),
{
    if ops.len() > 0 {
        lemma_run_work_monotone_after_last_finish(t, ops.drop_last());
    }
}

} // verus!
