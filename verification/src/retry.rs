//! The reconnect delay policy: exponential backoff with jitter, computed by
//! the `backoff` crate, with the interval the policy stands at and a count
//! of the delays taken since the policy last started afresh.

use backoff::backoff::Backoff;
use backoff::exponential::ExponentialBackoff;
use backoff::SystemClock;
use vstd::prelude::*;

verus! {

/// The clock of the `backoff` crate. Opaque here.
#[verifier::external_type_specification]
#[verifier::external_body]
pub struct ExSystemClock(SystemClock);

/// The exponential backoff policy of the `backoff` crate. Opaque here.
#[verifier::external_type_specification]
#[verifier::external_body]
#[verifier::reject_recursive_types(C)]
pub struct ExExponentialBackoff<C>(ExponentialBackoff<C>);

/// Seconds to wait where the policy names no delay.
pub const FALLBACK_DELAY_SECS: u64 = 1;

/// A time to wait before the next connection attempt.
#[derive(Clone, Copy, Debug, PartialEq, Eq, Structural)]
pub struct RetryDelay {
    pub secs: u64,
    /// The part below one second, in nanoseconds.
    pub nanos: u32,
}

/// The interval a fresh policy starts with, in nanoseconds.
pub const INITIAL_INTERVAL_NANOS: u64 = 500_000_000;

/// The interval at which the policy stops growing, in nanoseconds.
pub const MAX_INTERVAL_NANOS: u64 = 60_000_000_000;

/// Room left for the rounding of the policy's arithmetic, in nanoseconds.
pub const JITTER_SLACK_NANOS: u64 = 1_000;

/// The whole of a delay in nanoseconds.
pub open spec fn total_nanos(delay: RetryDelay) -> int {
    delay.secs * 1_000_000_000 + delay.nanos
}

/// The interval after a delay was taken at `interval`: half as long again,
/// and never beyond [`MAX_INTERVAL_NANOS`].
pub open spec fn grown(interval: int) -> int {
    if interval * 3 >= MAX_INTERVAL_NANOS * 2 {
        MAX_INTERVAL_NANOS as int
    } else {
        interval * 3 / 2
    }
}

/// Whether a delay of `nanos` may be drawn while the policy stands at
/// `interval`: between half the interval and one and a half times it.
pub open spec fn drawn_around(nanos: int, interval: int) -> bool {
    interval / 2 - JITTER_SLACK_NANOS <= nanos <= interval * 3 / 2 + JITTER_SLACK_NANOS
}

/// The policy of the `backoff` crate together with the interval it stands
/// at. The interval is kept for the contracts only; nothing but the three
/// calls into the crate below sets it.
pub struct DelayPolicy {
    inner: ExponentialBackoff<SystemClock>,
    interval: Ghost<int>,
}

impl DelayPolicy {
    /// The interval the policy stands at, in nanoseconds.
    pub closed spec fn spec_interval(&self) -> int {
        self.interval@
    }
}

/// Makes `ExponentialBackoff { max_elapsed_time: None,
/// ..ExponentialBackoff::default() }`: the crate's default policy, but one
/// that never gives up. Trusted: the policy starts at the crate's default
/// initial interval of 500 ms.
#[verifier::external_body]
fn unbounded_policy() -> (policy: DelayPolicy)
    ensures
        policy.spec_interval() == INITIAL_INTERVAL_NANOS,
{
    DelayPolicy {
        inner: ExponentialBackoff { max_elapsed_time: None, ..ExponentialBackoff::default() },
        interval: Ghost(500_000_000),
    }
}

/// Calls `Backoff::reset` of the policy. Trusted: the policy returns to its
/// initial interval.
#[verifier::external_body]
fn reset_policy(policy: &mut DelayPolicy)
    ensures
        final(policy).spec_interval() == INITIAL_INTERVAL_NANOS,
{
    policy.inner.reset();
}

/// Calls `Backoff::next_backoff` of the policy and splits the duration into
/// whole seconds and the nanoseconds below a second. Trusted: a policy
/// that never gives up always names a delay; the delay is drawn at random
/// between half the interval the policy stood at and one and a half times
/// it, give or take the rounding of the crate's arithmetic; and the policy
/// then stands at an interval half as long again, up to the crate's default
/// maximum of 60 s.
#[verifier::external_body]
fn next_backoff(policy: &mut DelayPolicy) -> (delay: Option<(u64, u32)>)
    ensures
        delay is Some,
        delay matches Some(d) ==> d.1 < 1_000_000_000 && drawn_around(
            d.0 * 1_000_000_000 + d.1,
            old(policy).spec_interval(),
        ),
        final(policy).spec_interval() == grown(old(policy).spec_interval()),
{
    policy.inner.next_backoff().map(|d| (d.as_secs(), d.subsec_nanos()))
}

/// The delay to wait given what the policy answered: the policy's delay
/// where it named one, else [`FALLBACK_DELAY_SECS`].
pub fn delay_or_fallback(next: Option<(u64, u32)>) -> (delay: RetryDelay)
    ensures
        delay == match next {
            Some(d) => RetryDelay { secs: d.0, nanos: d.1 },
            None => RetryDelay { secs: FALLBACK_DELAY_SECS, nanos: 0 },
        },
{
    match next {
        Some(d) => RetryDelay { secs: d.0, nanos: d.1 },
        None => RetryDelay { secs: FALLBACK_DELAY_SECS, nanos: 0 },
    }
}

/// A count one higher, held at the top of its range.
pub open spec fn bump(count: u64) -> u64 {
    if count < u64::MAX {
        (count + 1) as u64
    } else {
        count
    }
}

/// The delay policy between connection attempts.
pub struct ReconnectBackoff {
    policy: DelayPolicy,
    taken: u64,
}

impl ReconnectBackoff {
    /// Number of delays taken since the policy last started afresh.
    pub closed spec fn spec_taken(&self) -> u64 {
        self.taken
    }

    /// The interval around which the next delay is drawn, in nanoseconds.
    pub closed spec fn spec_interval(&self) -> int {
        self.policy.spec_interval()
    }

    /// A fresh policy that never gives up.
    pub fn new() -> (backoff: Self)
        ensures
            backoff.spec_taken() == 0,
            backoff.spec_interval() == INITIAL_INTERVAL_NANOS,
    {
        ReconnectBackoff { policy: unbounded_policy(), taken: 0 }
    }

    #[verifier::when_used_as_spec(spec_taken)]
    pub fn taken(&self) -> (taken: u64)
        ensures
            taken == self.spec_taken(),
    {
        self.taken
    }

    /// Returns the policy to its initial interval.
    pub fn reset(&mut self)
        ensures
            final(self).spec_taken() == 0,
            final(self).spec_interval() == INITIAL_INTERVAL_NANOS,
    {
        reset_policy(&mut self.policy);
        self.taken = 0;
    }

    /// Takes the next delay from the policy. The delay is drawn around the
    /// interval the policy stood at, and the interval then grows.
    pub fn next_delay(&mut self) -> (delay: RetryDelay)
        ensures
            final(self).spec_taken() == bump(old(self).spec_taken()),
            final(self).spec_interval() == grown(old(self).spec_interval()),
            delay.nanos < 1_000_000_000,
            drawn_around(total_nanos(delay), old(self).spec_interval()),
    {
        let next = next_backoff(&mut self.policy);
        if self.taken < u64::MAX {
            self.taken = self.taken + 1;
        }
        delay_or_fallback(next)
    }
}

/// Between the initial interval and the maximum, taking a delay never
/// shortens the interval, lengthens it while it is below the maximum, and
/// never takes it beyond the maximum.
pub proof fn lemma_interval_grows(interval: int)
    requires
        INITIAL_INTERVAL_NANOS <= interval <= MAX_INTERVAL_NANOS,
    ensures
        interval <= grown(interval) <= MAX_INTERVAL_NANOS,
        interval < MAX_INTERVAL_NANOS ==> interval < grown(interval),
{
}

/// Every delay drawn between the initial interval and the maximum lasts at
/// least a little under a quarter of a second and at most a little over a
/// minute and a half.
pub proof fn lemma_delay_is_bounded(nanos: int, interval: int)
    requires
        INITIAL_INTERVAL_NANOS <= interval <= MAX_INTERVAL_NANOS,
        drawn_around(nanos, interval),
    ensures
        INITIAL_INTERVAL_NANOS / 2 - JITTER_SLACK_NANOS <= nanos <= MAX_INTERVAL_NANOS * 3 / 2
            + JITTER_SLACK_NANOS,
{
}

} // verus!
