//! Decisions of the background task that polls for messages addressed to the
//! rented number: when to poll, what to forward, when to sleep and when to
//! stop. The task itself (the calls, the sleeping) runs outside.
use vstd::prelude::*;
use crate::provider::{Message, RunError, message_texts, strings_view, texts_of};

verus! {

/// Seconds between two poll cycles.
pub const POLL_INTERVAL_SECS: u64 = 5;

/// What the polling task does next.
#[derive(Debug, PartialEq, Eq)]
pub enum PollerAction {
    /// Ask the provider for the messages pending on this handle.
    Poll { handle: String },
    /// Wait this many seconds before the next cycle.
    Sleep { secs: u64 },
    /// Cancelled: end the task without another call.
    Stop,
}

/// State of the polling task for one rented number.
pub struct Poller {
    /// Handle of the rented number being polled.
    pub handle: String,
    /// Number of consecutive failed polls at which the failure is reported
    /// to the caller; polling goes on regardless.
    pub max_failures: u64,
    /// Failed polls since the last successful one.
    pub failures: u64,
    /// Set once the task has decided to end; it then never polls again.
    pub stopped: bool,
}

/// The failure count after a cycle with the given outcome.
pub open spec fn failures_after(p: Poller, outcome: Result<Vec<Message>, RunError>) -> u64 {
    match outcome {
        Ok(_) => 0,
        Err(_) => if p.failures < u64::MAX {
            (p.failures + 1) as u64
        } else {
            u64::MAX
        },
    }
}

/// The step that follows a cycle: stop when cancelled (checked before
/// sleeping), otherwise sleep the fixed interval.
pub open spec fn next_after_cycle(p: Poller, cancelled: bool) -> PollerAction {
    if p.stopped || cancelled {
        PollerAction::Stop
    } else {
        PollerAction::Sleep { secs: POLL_INTERVAL_SECS }
    }
}

/// Whether a cycle with this outcome brings the run of failed polls to the
/// reporting limit (reported once per run of failures).
pub open spec fn escalates(p: Poller, outcome: Result<Vec<Message>, RunError>) -> bool {
    outcome is Err && failures_after(p, outcome) == p.max_failures && p.failures != p.max_failures
}

/// The interval between cycles does not depend on what a cycle returned:
/// after a cycle with no messages, with many, or after a failed poll, a task
/// that was not cancelled sleeps the same fixed time.
pub proof fn lemma_sleep_interval_constant(p: Poller, cancelled: bool)
    requires
        !p.stopped,
        !cancelled,
    ensures
        next_after_cycle(p, cancelled) == (PollerAction::Sleep { secs: POLL_INTERVAL_SECS }),
{
}

impl Poller {
    /// A task for `handle` that gives up after `max_failures` consecutive
    /// failed polls.
    pub fn new(handle: String, max_failures: u64) -> (r: Poller)
        ensures
            r.handle == handle,
            r.max_failures == max_failures,
            r.failures == 0,
            !r.stopped,
    {
        Poller { handle, max_failures, failures: 0, stopped: false }
    }

    /// Top of a cycle: poll the handle, unless cancelled or already ended.
    pub fn begin_cycle(&mut self, cancelled: bool) -> (r: PollerAction)
        ensures
            final(self).handle == old(self).handle,
            final(self).max_failures == old(self).max_failures,
            final(self).failures == old(self).failures,
            final(self).stopped == (old(self).stopped || cancelled),
            old(self).stopped || cancelled ==> r == PollerAction::Stop,
            !old(self).stopped && !cancelled ==> r == (PollerAction::Poll {
                handle: old(self).handle,
            }),
    {
        if self.stopped || cancelled {
            self.stopped = true;
            PollerAction::Stop
        } else {
            PollerAction::Poll { handle: self.handle.clone() }
        }
    }

    /// End of a cycle: the texts to forward, in the provider's order (none
    /// when the poll failed), the next step, and whether the run of failed
    /// polls has just reached the reporting limit.
    pub fn end_cycle(
        &mut self,
        outcome: Result<Vec<Message>, RunError>,
        cancelled: bool,
    ) -> (r: (Vec<String>, PollerAction, bool))
        ensures
            match outcome {
                Ok(ms) => strings_view(r.0@) == texts_of(ms@),
                Err(_) => r.0@.len() == 0,
            },
            r.1 == next_after_cycle(*old(self), cancelled),
            r.2 == escalates(*old(self), outcome),
            final(self).handle == old(self).handle,
            final(self).max_failures == old(self).max_failures,
            final(self).failures == failures_after(*old(self), outcome),
            final(self).stopped == r.1 is Stop,
    {
        let ok = outcome.is_ok();
        let was_at_limit = self.failures == self.max_failures;
        let forward = match outcome {
            Ok(ms) => {
                self.failures = 0;
                message_texts(&ms)
            },
            Err(_) => {
                if self.failures < u64::MAX {
                    self.failures = self.failures + 1;
                }
                Vec::new()
            },
        };
        let escalate = !ok && self.failures == self.max_failures && !was_at_limit;
        if self.stopped || cancelled {
            self.stopped = true;
            (forward, PollerAction::Stop, escalate)
        } else {
            (forward, PollerAction::Sleep { secs: POLL_INTERVAL_SECS }, escalate)
        }
    }
}

} // verus!
