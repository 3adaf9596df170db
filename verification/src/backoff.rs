//! Waiting between the attempts of a task that failed.
//!
//! The delays come from the exponential policy of the `backoff` crate. Its
//! interval is half a second at first, grows by half with each delay and
//! stops growing at a minute; each delay is drawn at random from the half
//! of the interval on either side of it. The policy is set never to give
//! up. What is decided here is what the task does with a delay, and that a
//! success starts the policy anew.

use std::time::Duration;
use vstd::prelude::*;

verus! {

/// The exponential policy of the `backoff` crate.
#[verifier::external_type_specification]
#[verifier::external_body]
#[verifier::reject_recursive_types(C)]
pub struct ExExponentialBackoff<C>(backoff::exponential::ExponentialBackoff<C>);

/// The clock of the `backoff` crate that reads the time of the system.
#[verifier::external_type_specification]
#[verifier::external_body]
pub struct ExSystemClock(backoff::SystemClock);

/// The interval with which a policy starts, in nanoseconds: half a second.
pub const INITIAL_INTERVAL_NANOS: u64 = 500_000_000;

/// The longest interval of a policy, in nanoseconds: a minute.
pub const MAX_INTERVAL_NANOS: u64 = 60_000_000_000;

/// The interval from which a policy goes to its longest interval with the
/// next step, in nanoseconds: two thirds of a minute.
pub const LAST_GROWING_INTERVAL_NANOS: u64 = 40_000_000_000;

/// The length of a duration in nanoseconds: what `Duration::as_nanos`
/// gives.
pub uninterp spec fn duration_nanos(duration: Duration) -> nat;

/// The time after which a policy gives up, or `None` for a policy that
/// never does: its field `max_elapsed_time`.
pub uninterp spec fn policy_limit(
    policy: backoff::exponential::ExponentialBackoff<backoff::SystemClock>,
) -> Option<Duration>;

/// The interval around which a policy draws its next delay: its field
/// `current_interval`.
pub uninterp spec fn policy_interval(
    policy: backoff::exponential::ExponentialBackoff<backoff::SystemClock>,
) -> Duration;

/// The interval with which a policy starts: its field `initial_interval`.
pub uninterp spec fn policy_initial_interval(
    policy: backoff::exponential::ExponentialBackoff<backoff::SystemClock>,
) -> Duration;

/// A policy has the rates that the `backoff` crate sets: its interval is
/// multiplied by one and a half with each step (field `multiplier`), its
/// delays lie within half of the interval on either side of it (field
/// `randomization_factor`), and its interval grows to a minute at most
/// (field `max_interval`).
pub uninterp spec fn policy_rates_are_default(
    policy: backoff::exponential::ExponentialBackoff<backoff::SystemClock>,
) -> bool;

/// The interval that follows an interval: one and a half times as long,
/// and a minute where that would be more than a minute.
pub open spec fn spec_grown(interval: nat) -> nat {
    if interval >= LAST_GROWING_INTERVAL_NANOS {
        MAX_INTERVAL_NANOS as nat
    } else {
        interval + interval / 2
    }
}

/// A delay fits an interval: it lies within half of the interval on
/// either side of it, the nanosecond behind the upper end included.
pub open spec fn spec_delay_fits(interval: nat, delay: nat) -> bool {
    interval / 2 <= delay <= interval + interval / 2 + 1
}

/// A policy takes regular steps: it never gives up, it has the rates that
/// the `backoff` crate sets, and its interval is a minute at most.
pub open spec fn spec_steps_regularly(
    policy: backoff::exponential::ExponentialBackoff<backoff::SystemClock>,
) -> bool {
    &&& policy_limit(policy) is None
    &&& policy_rates_are_default(policy)
    &&& duration_nanos(policy_interval(policy)) <= MAX_INTERVAL_NANOS
}

/// `ExponentialBackoff::default` of the `backoff` crate: the policy with
/// the rates that the crate sets, which starts at the time of the call and
/// at its initial interval of half a second.
#[verifier::external_body]
fn default_policy() -> (policy: backoff::exponential::ExponentialBackoff<backoff::SystemClock>)
    ensures
        policy_rates_are_default(policy),
        duration_nanos(policy_initial_interval(policy)) == INITIAL_INTERVAL_NANOS,
        policy_interval(policy) == policy_initial_interval(policy),
{
    backoff::ExponentialBackoff::default()
}

/// The field `max_elapsed_time` of a policy of the `backoff` crate is set
/// to the limit given; the intervals and the rates of the policy stay.
#[verifier::external_body]
fn set_max_elapsed_time(
    policy: &mut backoff::exponential::ExponentialBackoff<backoff::SystemClock>,
    limit: Option<Duration>,
)
    ensures
        policy_limit(*final(policy)) == limit,
        policy_interval(*final(policy)) == policy_interval(*old(policy)),
        policy_initial_interval(*final(policy)) == policy_initial_interval(*old(policy)),
        policy_rates_are_default(*final(policy)) == policy_rates_are_default(*old(policy)),
{
    policy.max_elapsed_time = limit;
}

/// `Backoff::next_backoff` of the `backoff` crate: the next delay, drawn
/// at random around the current interval, or `None` where the policy
/// gives up. A policy without limit never gives up. A policy that takes
/// regular steps gives a delay that fits its interval, and its interval
/// grows by one step. The limit, the initial interval and the rates of
/// the policy stay.
#[verifier::external_body]
fn next_delay(
    policy: &mut backoff::exponential::ExponentialBackoff<backoff::SystemClock>,
) -> (delay: Option<Duration>)
    ensures
        policy_limit(*old(policy)) is None ==> delay is Some,
        spec_steps_regularly(*old(policy)) ==> spec_retry_fits(
            duration_nanos(policy_interval(*old(policy))),
            spec_retry(delay),
        ),
        spec_steps_regularly(*old(policy)) ==> duration_nanos(policy_interval(*final(policy)))
            == spec_grown(duration_nanos(policy_interval(*old(policy)))),
        policy_limit(*final(policy)) == policy_limit(*old(policy)),
        policy_initial_interval(*final(policy)) == policy_initial_interval(*old(policy)),
        policy_rates_are_default(*final(policy)) == policy_rates_are_default(*old(policy)),
{
    backoff::backoff::Backoff::next_backoff(policy)
}

/// `Backoff::reset` of the `backoff` crate: the policy starts anew, at the
/// time of the call and at its initial interval. Its limit and its rates
/// stay.
#[verifier::external_body]
fn reset_policy(policy: &mut backoff::exponential::ExponentialBackoff<backoff::SystemClock>)
    ensures
        policy_interval(*final(policy)) == policy_initial_interval(*final(policy)),
        policy_limit(*final(policy)) == policy_limit(*old(policy)),
        policy_initial_interval(*final(policy)) == policy_initial_interval(*old(policy)),
        policy_rates_are_default(*final(policy)) == policy_rates_are_default(*old(policy)),
{
    backoff::backoff::Backoff::reset(policy)
}

/// What a task does after a failed attempt.
#[derive(Debug, Clone, Copy)]
pub enum Retry {
    /// It sleeps for the delay and then tries again.
    After(Duration),
    /// It tries again at once.
    AtOnce,
}

/// What follows a failed attempt, for a delay that the policy gave or
/// refused: the task never stops trying.
pub open spec fn spec_retry(delay: Option<Duration>) -> Retry {
    match delay {
        Some(duration) => Retry::After(duration),
        None => Retry::AtOnce,
    }
}

/// A retry fits an interval: it comes after a delay, and the delay fits
/// the interval.
pub open spec fn spec_retry_fits(interval: nat, retry: Retry) -> bool {
    match retry {
        Retry::After(duration) => spec_delay_fits(interval, duration_nanos(duration)),
        Retry::AtOnce => false,
    }
}

/// Decides what follows a failed attempt from what the policy said.
pub fn retry_with(delay: Option<Duration>) -> (retry: Retry)
    ensures
        retry == spec_retry(delay),
{
    match delay {
        Some(duration) => Retry::After(duration),
        None => Retry::AtOnce,
    }
}

/// The state of the waiting between the attempts of one task.
pub struct Backoff {
    policy: backoff::exponential::ExponentialBackoff<backoff::SystemClock>,
}

impl Backoff {
    /// The backoff is as `new` makes it and as `failed` and `succeeded`
    /// keep it: it never gives up, it starts at half a second, it grows by
    /// half with each failure, and its interval is a minute at most.
    pub closed spec fn spec_is_standard(&self) -> bool {
        &&& spec_steps_regularly(self.policy)
        &&& duration_nanos(policy_initial_interval(self.policy)) == INITIAL_INTERVAL_NANOS
    }

    /// The interval around which the next delay is drawn, in nanoseconds.
    pub closed spec fn spec_interval_nanos(&self) -> nat {
        duration_nanos(policy_interval(self.policy))
    }

    /// A backoff that starts now: it never gives up, and its first delay
    /// is drawn around half a second.
    pub fn new() -> (backoff: Self)
        ensures
            backoff.spec_is_standard(),
            backoff.spec_interval_nanos() == INITIAL_INTERVAL_NANOS,
    {
        let mut policy = default_policy();
        set_max_elapsed_time(&mut policy, None);
        Backoff { policy }
    }

    /// After a failed attempt: asks the policy for the next delay and
    /// decides as `retry_with` says. The attempt is tried again after a
    /// delay that fits the interval, and the interval grows by one step.
    pub fn failed(&mut self) -> (retry: Retry)
        ensures
            old(self).spec_is_standard() ==> final(self).spec_is_standard(),
            old(self).spec_is_standard() ==> spec_retry_fits(old(self).spec_interval_nanos(), retry),
            old(self).spec_is_standard() ==> final(self).spec_interval_nanos() == spec_grown(
                old(self).spec_interval_nanos(),
            ),
    {
        let delay = next_delay(&mut self.policy);
        retry_with(delay)
    }

    /// After a successful attempt: the policy starts anew, so the next
    /// delay is drawn around half a second again.
    pub fn succeeded(&mut self)
        ensures
            old(self).spec_is_standard() ==> final(self).spec_is_standard(),
            old(self).spec_is_standard() ==> final(self).spec_interval_nanos()
                == INITIAL_INTERVAL_NANOS,
    {
        reset_policy(&mut self.policy);
    }
}

/// The interval around which the delay after the `failures`-th failure in
/// a row is drawn, counted from 0, in nanoseconds.
pub open spec fn spec_interval_after(failures: nat) -> nat
    decreases failures,
{
    if failures == 0 {
        INITIAL_INTERVAL_NANOS as nat
    } else {
        spec_grown(spec_interval_after((failures - 1) as nat))
    }
}

/// The delays grow and stop growing: the intervals begin with half a
/// second, three quarters of a second and a second and an eighth; none is
/// shorter than the one before it, and none is longer than a minute.
pub proof fn lemma_intervals_grow(failures: nat)
    ensures
        spec_interval_after(0) == 500_000_000,
        spec_interval_after(1) == 750_000_000,
        spec_interval_after(2) == 1_125_000_000,
        INITIAL_INTERVAL_NANOS <= spec_interval_after(failures) <= MAX_INTERVAL_NANOS,
        spec_interval_after(failures) <= spec_interval_after(failures + 1),
    decreases failures,
{
    reveal_with_fuel(spec_interval_after, 3);
    if failures > 0 {
        lemma_intervals_grow((failures - 1) as nat);
    }
}

} // verus!
