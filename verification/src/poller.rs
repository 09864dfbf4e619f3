//! The polling discipline shared by every worker: after each unit of work the
//! poller says whether to poll again at once or to wait first, and how long.

use crate::idempotency_cleaner_worker::{
    IdempotentExecutionOutcome, DEFAULT_ERROR_INTERVAL, DEFAULT_IDLE_INTERVAL,
};
use vstd::prelude::*;

verus! {

/// The waits of a polling loop, in time units. The wait after a failed poll is
/// never zero, so that a lasting fault cannot make the loop spin, and it is
/// shorter than the wait after a poll that found nothing.
#[derive(Clone, Copy, Debug)]
pub struct Poller {
    idle_interval: u64,
    error_interval: u64,
}

/// The wait that follows a poll: none after completed work, the idle interval
/// after an empty table, the error interval after a failure.
pub open spec fn delay_after<E>(
    outcome: Result<IdempotentExecutionOutcome, E>,
    idle_interval: u64,
    error_interval: u64,
) -> Option<u64> {
    match outcome {
        Ok(IdempotentExecutionOutcome::TaskCompleted) => None,
        Ok(IdempotentExecutionOutcome::EmptyTable) => Some(idle_interval),
        Err(_) => Some(error_interval),
    }
}

impl Poller {
    #[verifier::type_invariant]
    spec fn shorter_on_error(self) -> bool {
        0 < self.error_interval < self.idle_interval
    }

    /// The wait after a poll that found nothing.
    pub closed spec fn idle(self) -> u64 {
        self.idle_interval
    }

    /// The wait after a poll that failed.
    pub closed spec fn error(self) -> u64 {
        self.error_interval
    }

    /// A poller with the given waits, if the error interval is more than zero
    /// and the shorter of the two.
    pub fn new(idle_interval: u64, error_interval: u64) -> (r: Option<Poller>)
        ensures
            r is Some <==> 0 < error_interval < idle_interval,
            r matches Some(p) ==> p.idle() == idle_interval && p.error() == error_interval,
    {
        if 0 < error_interval && error_interval < idle_interval {
            Some(Poller { idle_interval, error_interval })
        } else {
            None
        }
    }

    /// The wait after a poll that found nothing.
    pub fn idle_interval(&self) -> (t: u64)
        ensures
            t == self.idle(),
            0 < self.error() < t,
    {
        proof {
            use_type_invariant(self);
        }
        self.idle_interval
    }

    /// The wait after a poll that failed.
    pub fn error_interval(&self) -> (t: u64)
        ensures
            t == self.error(),
            0 < t < self.idle(),
    {
        proof {
            use_type_invariant(self);
        }
        self.error_interval
    }

    /// How long to wait before the next poll, given what the last one found;
    /// `None` means to poll again at once. A wait, where there is one, is never
    /// zero, and the wait after a failure is the shorter.
    pub fn next_delay<E>(&self, outcome: &Result<IdempotentExecutionOutcome, E>) -> (delay: Option<
        u64,
    >)
        ensures
            delay == delay_after(*outcome, self.idle(), self.error()),
            0 < self.error() < self.idle(),
            delay matches Some(wait) ==> 0 < wait,
            delay is None <==> *outcome == Ok::<IdempotentExecutionOutcome, E>(
                IdempotentExecutionOutcome::TaskCompleted,
            ),
    {
        proof {
            use_type_invariant(self);
        }
        match outcome {
            Ok(IdempotentExecutionOutcome::TaskCompleted) => None,
            Ok(IdempotentExecutionOutcome::EmptyTable) => Some(self.idle_interval),
            Err(_) => Some(self.error_interval),
        }
    }
}

impl Default for Poller {
    /// The standard waits: [`DEFAULT_IDLE_INTERVAL`] and [`DEFAULT_ERROR_INTERVAL`].
    fn default() -> (p: Poller)
        ensures
            p.idle() == DEFAULT_IDLE_INTERVAL,
            p.error() == DEFAULT_ERROR_INTERVAL,
    {
        Poller { idle_interval: DEFAULT_IDLE_INTERVAL, error_interval: DEFAULT_ERROR_INTERVAL }
    }
}

/// Backoff selection. Whatever the two waits, a poll that completed work is
/// followed by no wait, one that found nothing by the idle interval, and one
/// that failed by the error interval, whatever the failure was.
pub proof fn lemma_backoff_selection<E>(idle_interval: u64, error_interval: u64, failure: E)
    ensures
        delay_after::<E>(
            Ok(IdempotentExecutionOutcome::TaskCompleted),
            idle_interval,
            error_interval,
        ) is None,
        delay_after::<E>(Ok(IdempotentExecutionOutcome::EmptyTable), idle_interval, error_interval)
            == Some(idle_interval),
        delay_after::<E>(Err(failure), idle_interval, error_interval) == Some(error_interval),
{
}

} // verus!
