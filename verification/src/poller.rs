//! Polling at a fixed interval.

use crate::backoff::{spec_grown, spec_retry_fits, Backoff, Retry, INITIAL_INTERVAL_NANOS};
use std::time::Duration;
use vstd::prelude::*;

verus! {

/// The seconds between two polls of a configuration.
pub const POLL_INTERVAL_SECS: u64 = 10;

/// One poll of a source of configuration.
pub trait Poll {
    /// Why a poll fails.
    type Error;

    /// What one poll may do: how it may leave the source, and what it may
    /// answer. Each source says this of itself, and one that says nothing
    /// may do anything.
    open spec fn polled(&self, after: &Self, outcome: Result<(), Self::Error>) -> bool {
        true
    }

    /// Asks the source once and publishes what has changed.
    fn poll(&mut self) -> (outcome: Result<(), Self::Error>)
        ensures
            old(self).polled(final(self), outcome),
    ;
}

/// A source of configuration together with the interval at which it is
/// polled.
pub struct Poller<T: Poll> {
    poll: T,
    duration: Duration,
}

impl<T: Poll> Poller<T> {
    /// The source.
    pub closed spec fn spec_poll(&self) -> T {
        self.poll
    }

    /// The interval between two polls.
    pub closed spec fn spec_duration(&self) -> Duration {
        self.duration
    }

    /// Puts a source and its interval together.
    pub fn new(poll: T, duration: Duration) -> (poller: Self)
        ensures
            poller.spec_poll() == poll,
            poller.spec_duration() == duration,
    {
        Self { poll, duration }
    }

    /// The interval between two polls.
    pub fn duration(&self) -> (duration: Duration)
        ensures
            duration == self.spec_duration(),
    {
        self.duration
    }

    /// One poll: the source is asked once, and what it answers is handed
    /// on. The interval stays as it is.
    pub fn poll(&mut self) -> (outcome: Result<(), T::Error>)
        ensures
            old(self).spec_poll().polled(&final(self).spec_poll(), outcome),
            final(self).spec_duration() == old(self).spec_duration(),
    {
        self.poll.poll()
    }

    /// One round of polling with its backoff: the source is asked once and
    /// the round ends as `end_round` says. The interval stays as it is.
    pub fn round(&mut self, backoff: &mut Backoff) -> (round: Round<T::Error>)
        ensures
            old(self).spec_poll().polled(&final(self).spec_poll(), round.spec_outcome()),
            final(self).spec_duration() == old(self).spec_duration(),
            spec_round_ended(*old(backoff), *final(backoff), round),
    {
        let outcome = self.poll.poll();
        end_round(outcome, backoff)
    }
}

/// How one round of polling ended.
pub enum Round<E> {
    /// The poll succeeded; the next one is due when the interval has
    /// passed.
    Polled,
    /// The poll failed with this error; the next one follows as the
    /// backoff says.
    Failed(E, Retry),
}

impl<E> Round<E> {
    /// What the source answered in this round.
    pub open spec fn spec_outcome(self) -> Result<(), E> {
        match self {
            Round::Polled => Ok(()),
            Round::Failed(error, _) => Err(error),
        }
    }
}

/// What the end of a round does to the backoff. After a success the
/// backoff starts anew, at half a second. After a failure the next attempt
/// comes after a delay that fits the interval of the backoff, and the
/// interval grows by one step.
pub open spec fn spec_round_ended<E>(before: Backoff, after: Backoff, round: Round<E>) -> bool {
    before.spec_is_standard() ==> {
        &&& after.spec_is_standard()
        &&& match round {
            Round::Polled => after.spec_interval_nanos() == INITIAL_INTERVAL_NANOS,
            Round::Failed(_, retry) => {
                &&& spec_retry_fits(before.spec_interval_nanos(), retry)
                &&& after.spec_interval_nanos() == spec_grown(before.spec_interval_nanos())
            },
        }
    }
}

/// Ends a round of polling for what the source answered. A success starts
/// the backoff anew and the round is `Polled`; a failure is handed on as
/// `Failed`, with its error and with what the backoff says of the next
/// attempt.
pub fn end_round<E>(outcome: Result<(), E>, backoff: &mut Backoff) -> (round: Round<E>)
    ensures
        round.spec_outcome() == outcome,
        spec_round_ended(*old(backoff), *final(backoff), round),
{
    match outcome {
        Ok(done) => {
            assert(done == ());
            backoff.succeeded();
            Round::Polled
        },
        Err(error) => Round::Failed(error, backoff.failed()),
    }
}

} // verus!
