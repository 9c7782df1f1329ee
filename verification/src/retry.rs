//! When a request that failed is made again.
use crate::error::{Error, RetryError};
use std::time::Duration;
use tokio_retry::strategy::{jitter, ExponentialBackoff};
use vstd::arithmetic::power::*;
use vstd::prelude::*;

verus! {

/// The delay before the first retry, and the factor by which delays grow, in milliseconds.
pub const BASE_DELAY_MS: u64 = 50;

/// The longest delay that the growth leads to, in milliseconds.
pub const MAX_DELAY_MS: u64 = 5000;

/// The time to wait in any case, in milliseconds. Caches remember an internal server error for this
/// long.
pub const MIN_DELAY_MS: u64 = 5000;

/// How often a request is made again.
pub const RETRIES: usize = 20;

/// The smaller one of two numbers.
pub open spec fn smaller(a: int, b: int) -> int {
    if a <= b {
        a
    } else {
        b
    }
}

/// Takes the first `count` delays of [`tokio_retry::strategy::ExponentialBackoff`], in milliseconds.
/// They are the powers of the base, but none is longer than `max_delay`. A list that is too long for
/// the memory is not asked for.
#[verifier::external_body]
fn backoff_delays(base: u64, max_delay: u64, count: usize) -> (delays: Vec<u64>)
    requires
        count <= 1000,
    ensures
        delays@.len() == count,
        forall|i: int|
            0 <= i < count ==> #[trigger] delays@[i] == smaller(
                pow(base as int, (i + 1) as nat),
                max_delay as int,
            ),
{
    let strategy = ExponentialBackoff::from_millis(base).max_delay(Duration::from_millis(max_delay));
    strategy.take(count).map(|delay| delay.as_millis() as u64).collect()
}

/// Calls [`tokio_retry::strategy::jitter`] on a delay in milliseconds. The result is random; it is
/// never longer than the delay. Floating point is exact enough for that up to 2^53. Nothing is said
/// about machines without a source of randomness.
#[verifier::external_body]
fn jittered(delay: u64) -> (shorter: u64)
    requires
        delay <= 0x20_0000_0000_0000,
    ensures
        shorter <= delay,
{
    jitter(Duration::from_millis(delay)).as_millis() as u64
}

/// The longest random part of the delay after `failures` failures and one more.
pub open spec fn backoff(failures: nat) -> int {
    smaller(pow(BASE_DELAY_MS as int, failures + 1), MAX_DELAY_MS as int)
}

/// Whether there is another attempt after `failures` failures and one more.
pub open spec fn may_retry(failures: nat) -> bool {
    failures < RETRIES
}

/// A series of attempts.
#[derive(Debug, PartialEq, Eq)]
pub struct Retry {
    delays: Vec<u64>,
    failures: usize,
}

impl View for Retry {
    type V = nat;

    /// The number of attempts that have failed so far.
    closed spec fn view(&self) -> nat {
        self.failures as nat
    }
}

/// What to do after a failure.
#[derive(Debug, PartialEq, Eq)]
pub enum RetryStep {
    /// Wait for so many milliseconds and try again.
    Wait(Retry, u64),
    /// Give up.
    GiveUp(RetryError),
}

/// How long to wait, in milliseconds, given the random part of the delay.
pub fn wait_millis(random: u64) -> (millis: u64)
    requires
        random + MIN_DELAY_MS <= u64::MAX,
    ensures
        millis == random + MIN_DELAY_MS,
{
    random + MIN_DELAY_MS
}

impl Retry {
    #[verifier::type_invariant]
    spec fn delays_are_known(self) -> bool {
        &&& self.failures <= RETRIES
        &&& self.delays@.len() == RETRIES
        &&& forall|i: int| 0 <= i < RETRIES ==> #[trigger] self.delays@[i] == backoff(i as nat)
    }

    /// A series in which nothing has failed yet.
    pub fn new() -> (retry: Retry)
        ensures
            retry@ == 0,
    {
        Retry { delays: backoff_delays(BASE_DELAY_MS, MAX_DELAY_MS, RETRIES), failures: 0 }
    }

    /// The longest random part of the delay before the next attempt, in milliseconds.
    pub fn longest_random(&self) -> (delay: u64)
        requires
            may_retry(self@),
        ensures
            delay == backoff(self@),
    {
        proof {
            use_type_invariant(self);
        }
        self.delays[self.failures]
    }

    /// Decides what to do after an attempt failed with `error`, given the random part of the delay.
    /// After as many failures as there are retries, the series ends with the error of the last
    /// attempt.
    pub fn after_failure_with(self, error: Error, random: u64) -> (step: RetryStep)
        requires
            may_retry(self@) ==> random + MIN_DELAY_MS <= u64::MAX,
        ensures
            self@ <= RETRIES,
            match step {
                RetryStep::Wait(next, millis) => may_retry(self@) && next@ == self@ + 1 && millis
                    == random + MIN_DELAY_MS,
                RetryStep::GiveUp(end) => !may_retry(self@) && end == RetryError::OperationError(
                    error,
                ),
            },
    {
        proof {
            use_type_invariant(&self);
        }
        if self.failures < RETRIES {
            let next = Retry { delays: self.delays, failures: self.failures + 1 };
            RetryStep::Wait(next, wait_millis(random))
        } else {
            RetryStep::GiveUp(RetryError::OperationError(error))
        }
    }

    /// Decides what to do after an attempt failed with `error`. The random part of the delay is drawn
    /// from up to [`Retry::longest_random`].
    pub fn after_failure(self, error: Error) -> (step: RetryStep)
        ensures
            self@ <= RETRIES,
            match step {
                RetryStep::Wait(next, millis) => may_retry(self@) && next@ == self@ + 1
                    && MIN_DELAY_MS <= millis <= MIN_DELAY_MS + backoff(self@),
                RetryStep::GiveUp(end) => !may_retry(self@) && end == RetryError::OperationError(
                    error,
                ),
            },
    {
        let random = if self.failures < RETRIES {
            jittered(self.longest_random())
        } else {
            0
        };
        self.after_failure_with(error, random)
    }
}

/// The number of the attempt that decides a series, where attempt `i` succeeds if `succeeds[i]`:
/// attempts go on from number `failures` until one succeeds or the retries are used up.
pub open spec fn deciding_attempt(succeeds: spec_fn(nat) -> bool, failures: nat) -> nat
    decreases RETRIES - failures,
{
    if succeeds(failures) || !may_retry(failures) {
        failures
    } else {
        deciding_attempt(succeeds, failures + 1)
    }
}

/// A series is decided by the first attempt that succeeds, or by the last one that is allowed. There
/// is at least one attempt, and there are never more than the retries and one.
pub proof fn law_first_success_decides(succeeds: spec_fn(nat) -> bool)
    ensures
        deciding_attempt(succeeds, 0) <= RETRIES,
        succeeds(deciding_attempt(succeeds, 0)) || deciding_attempt(succeeds, 0) == RETRIES,
        forall|i: nat| i < deciding_attempt(succeeds, 0) ==> !#[trigger] succeeds(i),
{
    lemma_deciding_attempt(succeeds, 0);
}

proof fn lemma_deciding_attempt(succeeds: spec_fn(nat) -> bool, failures: nat)
    requires
        failures <= RETRIES,
    ensures
        failures <= deciding_attempt(succeeds, failures) <= RETRIES,
        succeeds(deciding_attempt(succeeds, failures)) || deciding_attempt(succeeds, failures)
            == RETRIES,
        forall|i: nat|
            failures <= i < deciding_attempt(succeeds, failures) ==> !#[trigger] succeeds(i),
    decreases RETRIES - failures,
{
    if !succeeds(failures) && may_retry(failures) {
        lemma_deciding_attempt(succeeds, failures + 1);
    }
}

/// The random part of the delay is at most 50 milliseconds at first, then at most 2.5 seconds, and
/// from then on at most 5 seconds. So a wait takes from 5 to 10 seconds.
pub proof fn law_delays_grow(failures: nat)
    ensures
        backoff(0) == 50,
        backoff(1) == 2500,
        failures >= 2 ==> backoff(failures) == MAX_DELAY_MS,
        0 <= backoff(failures) <= MAX_DELAY_MS,
        backoff(failures) <= backoff(failures + 1),
{
    assert(pow(50, 1) == 50 && pow(50, 2) == 2500 && pow(50, 3) == 125000) by {
        reveal(pow);
        reveal_with_fuel(pow, 4);
    }
    lemma_pow_positive(50, failures + 1);
    lemma_pow_increases(50, failures + 1, failures + 2);
    if failures >= 2 {
        lemma_pow_increases(50, 3, failures + 1);
    }
}

/// There are twenty retries. The random part of a delay is never more than five seconds, and five
/// seconds are waited in any case.
pub proof fn law_retries_are_limited(failures: nat)
    ensures
        may_retry(failures) <==> failures < 20,
        failures >= 2 ==> backoff(failures) == 5000,
        MIN_DELAY_MS == 5000,
{
    law_delays_grow(failures);
}

} // verus!
