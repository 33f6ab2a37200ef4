//! Error retry with exponential backoff.
//!
//! Retries run inside one fetch, so the entry counts as validating throughout
//! and concurrent readers keep sharing it. The backoff is deterministic, and
//! the default number of retries is finite: a retrying fetch defers the
//! removal of its entry.

use crate::time::{Duration, Instant, MAX_SPAN_NANOS, NANOS_PER_SEC};
use std::sync::Arc;
use vstd::arithmetic::power2::{lemma2_to64, lemma_pow2_strictly_increases, lemma_pow2_unfold, pow2};
use vstd::bits::lemma_u32_shl_is_mul;
use vstd::prelude::*;

verus! {

/// Number of doublings after which the delay levels off.
pub const MAX_DOUBLINGS: u32 = 8;

/// Exponential backoff schedule.
#[derive(Clone, Copy, Debug, PartialEq, Eq, Structural)]
pub struct RetryPolicy {
    /// Base interval, doubled once per retry, at most eight times. Default: 5
    /// seconds.
    pub interval: Duration,
    /// Maximum number of retries after the first attempt; `None` retries
    /// forever. Default: `Some(3)`.
    pub max_retries: Option<u32>,
}

impl Default for RetryPolicy {
    fn default() -> (policy: Self)
        ensures
            policy == (RetryPolicy {
                interval: Duration { nanos: (5 * NANOS_PER_SEC) as u128 },
                max_retries: Some(3),
            }),
    {
        RetryPolicy { interval: Duration::from_secs(5), max_retries: Some(3) }
    }
}

impl RetryPolicy {
    /// How often the base interval is doubled before a retry.
    pub open spec fn doublings(attempt: u32) -> u32 {
        if attempt < MAX_DOUBLINGS {
            attempt
        } else {
            MAX_DOUBLINGS
        }
    }

    /// Delay before a retry, counted from one.
    pub open spec fn delay_spec(self, attempt: u32) -> Duration {
        self.interval.times(pow2(Self::doublings(attempt) as nat) as u32)
    }

    /// Delay before the `attempt`-th retry, counted from one: the base
    /// interval doubled per retry, levelling off, and cut off at the longest
    /// span.
    pub fn delay(&self, attempt: u32) -> (delay: Duration)
        ensures
            delay == self.delay_spec(attempt),
    {
        let doublings: u32 = if attempt < MAX_DOUBLINGS {
            attempt
        } else {
            MAX_DOUBLINGS
        };
        proof {
            lemma_factor(doublings);
            lemma_u32_shl_is_mul(1, doublings);
        }
        self.interval.saturating_mul(1u32 << doublings)
    }

    /// No retry is left for an attempt with this number.
    pub open spec fn exhausted_spec(self, attempt: u32) -> bool {
        self.max_retries matches Some(max) && attempt > max
    }

    /// Whether no retry is left for an attempt with this number.
    pub fn exhausted(&self, attempt: u32) -> (exhausted: bool)
        ensures
            exhausted == self.exhausted_spec(attempt),
    {
        match self.max_retries {
            Some(max) => attempt > max,
            None => false,
        }
    }

    /// When the `attempt`-th retry is due, or `None` when the clock does not
    /// reach that far.
    pub fn deadline(&self, attempt: u32, now: Instant) -> (at: Option<Instant>)
        ensures
            at == now.after(self.delay_spec(attempt)),
    {
        now.checked_add(self.delay(attempt))
    }
}

/// The factors of the schedule fit.
proof fn lemma_factor(doublings: u32)
    requires
        doublings <= MAX_DOUBLINGS,
    ensures
        1 <= pow2(doublings as nat) <= 256,
{
    lemma2_to64();
    if doublings < MAX_DOUBLINGS {
        lemma_pow2_strictly_increases(doublings as nat, MAX_DOUBLINGS as nat);
    }
    if 0 < doublings {
        lemma_pow2_strictly_increases(0, doublings as nat);
    }
}

/// How a fetch with retries goes on after an attempt.
pub enum RetryStep<T, E> {
    /// The fetch is over.
    Return(Result<T, E>),
    /// Back off, then try again.
    Backoff {
        /// Number of the retry to come.
        attempt: u32,
    },
}

/// A fetcher that retries failed attempts before it lets the error through,
/// over runtimes `R` that supply the timer, fetchers `F` and predicates `P`.
pub struct Retry<R: ?Sized, F, P> {
    inner: Arc<F>,
    runtime: Arc<R>,
    policy: RetryPolicy,
    should_retry: Option<Arc<P>>,
}

impl<R: ?Sized, F, P> Retry<R, F, P> {
    /// The wrapped fetcher.
    pub closed spec fn inner_spec(self) -> Arc<F> {
        self.inner
    }

    /// The runtime that supplies the timer.
    pub closed spec fn runtime_spec(self) -> Arc<R> {
        self.runtime
    }

    /// The schedule.
    pub closed spec fn policy_spec(self) -> RetryPolicy {
        self.policy
    }

    /// Which errors to retry; all of them without a predicate.
    pub closed spec fn should_retry_spec(self) -> Option<Arc<P>> {
        self.should_retry
    }

    /// Wraps `inner`, retrying every error.
    pub fn new(runtime: Arc<R>, inner: F, policy: RetryPolicy) -> (retry: Self)
        ensures
            retry.inner_spec() == Arc::new(inner),
            retry.runtime_spec() == runtime,
            retry.policy_spec() == policy,
            retry.should_retry_spec() is None,
    {
        Retry { inner: Arc::new(inner), runtime, policy, should_retry: None }
    }

    /// Only retries errors that `pred` accepts.
    pub fn retry_if(self, pred: P) -> (retry: Self)
        ensures
            retry.inner_spec() == self.inner_spec(),
            retry.runtime_spec() == self.runtime_spec(),
            retry.policy_spec() == self.policy_spec(),
            retry.should_retry_spec() == Some(Arc::new(pred)),
    {
        Retry {
            inner: self.inner,
            runtime: self.runtime,
            policy: self.policy,
            should_retry: Some(Arc::new(pred)),
        }
    }

    /// The wrapped fetcher.
    pub fn inner(&self) -> (inner: &Arc<F>)
        ensures
            *inner == self.inner_spec(),
    {
        &self.inner
    }

    /// The runtime that supplies the timer.
    pub fn runtime(&self) -> (runtime: &Arc<R>)
        ensures
            *runtime == self.runtime_spec(),
    {
        &self.runtime
    }

    /// The schedule.
    pub fn policy(&self) -> (policy: &RetryPolicy)
        ensures
            *policy == self.policy_spec(),
    {
        &self.policy
    }

    /// Whether the predicate may give this answer to an error.
    pub open spec fn may_answer<E>(self, error: E, retry: bool) -> bool where P: Fn(&E) -> bool {
        match self.should_retry_spec() {
            Some(pred) => call_ensures(*pred, (&error,), retry),
            None => retry,
        }
    }

    /// The predicate takes any error.
    pub open spec fn predicate_total<E>(self) -> bool where P: Fn(&E) -> bool {
        self.should_retry_spec() matches Some(pred) ==> forall|error: &E| #[trigger]
            call_requires(*pred, (error,))
    }

    /// How the fetch goes on after its attempt number `attempt`, counted from
    /// zero: a value is returned, and so is an error that no retry is left for
    /// or that the predicate turns down. The predicate is asked only while
    /// retries are left.
    pub fn after_attempt<T, E>(&self, attempt: u32, result: Result<T, E>) -> (step: RetryStep<
        T,
        E,
    >) where P: Fn(&E) -> bool
        requires
            attempt < u32::MAX,
            self.predicate_total::<E>(),
        ensures
            match result {
                Ok(value) => step == RetryStep::<T, E>::Return(Ok(value)),
                Err(error) => if self.policy_spec().exhausted_spec((attempt + 1) as u32) {
                    step == RetryStep::<T, E>::Return(Err(error))
                } else {
                    exists|retry: bool| #[trigger]
                        self.may_answer(error, retry) && step == if retry {
                            RetryStep::<T, E>::Backoff { attempt: (attempt + 1) as u32 }
                        } else {
                            RetryStep::Return(Err(error))
                        }
                },
            },
    {
        match result {
            Ok(value) => RetryStep::Return(Ok(value)),
            Err(error) => {
                let attempt: u32 = attempt + 1;
                if self.policy.exhausted(attempt) {
                    return RetryStep::Return(Err(error));
                }
                let retry = match &self.should_retry {
                    Some(pred) => (**pred)(&error),
                    None => true,
                };
                assert(self.may_answer(error, retry));
                if retry {
                    RetryStep::Backoff { attempt }
                } else {
                    RetryStep::Return(Err(error))
                }
            },
        }
    }
}

impl<R: ?Sized, F, P> Clone for Retry<R, F, P> {
    fn clone(&self) -> (retry: Self)
        ensures
            retry.inner_spec() == self.inner_spec(),
            retry.runtime_spec() == self.runtime_spec(),
            retry.policy_spec() == self.policy_spec(),
            retry.should_retry_spec() == self.should_retry_spec(),
    {
        Retry {
            inner: self.inner.clone(),
            runtime: self.runtime.clone(),
            policy: self.policy,
            should_retry: match &self.should_retry {
                Some(pred) => Some(pred.clone()),
                None => None,
            },
        }
    }
}

/// Every retry waits twice as long as the one before, up to the eighth and to
/// the longest span.
pub proof fn law_delay_doubles(policy: RetryPolicy, attempt: u32)
    requires
        attempt < MAX_DOUBLINGS,
    ensures
        policy.delay_spec((attempt + 1) as u32) == policy.delay_spec(attempt).times(2),
{
    lemma_factor(attempt);
    lemma_factor((attempt + 1) as u32);
    let a = pow2(attempt as nat);
    lemma_pow2_unfold((attempt + 1) as nat);
    let n = policy.interval.nanos as int;
    assert(n * (2 * a) == 2 * (n * a)) by (nonlinear_arith);
}

/// From the eighth retry on the delay stays the same.
pub proof fn law_delay_levels_off(policy: RetryPolicy, attempt: u32)
    requires
        attempt >= MAX_DOUBLINGS,
    ensures
        policy.delay_spec(attempt) == policy.delay_spec(MAX_DOUBLINGS),
{
}

/// With a limit, no retry beyond it is ever left.
pub proof fn law_retries_are_limited(policy: RetryPolicy, max: u32, attempt: u32)
    requires
        policy.max_retries == Some(max),
        !policy.exhausted_spec(attempt),
    ensures
        attempt <= max,
{
}

/// The schedule starts from the base interval, doubles once per retry, and ends at
/// eight doublings or at the longest span.
pub proof fn law_the_schedule_starts_from_the_interval(policy: RetryPolicy, attempt: u32)
    requires
        policy.interval.nanos <= MAX_SPAN_NANOS,
    ensures
        policy.delay_spec(0) == policy.interval,
        attempt < 8 ==> ({
            let twice = 2 * policy.delay_spec(attempt).nanos;
            policy.delay_spec((attempt + 1) as u32).nanos == if twice <= MAX_SPAN_NANOS {
                twice
            } else {
                MAX_SPAN_NANOS as int
            }
        }),
        attempt >= 8 ==> policy.delay_spec(attempt) == policy.delay_spec(8),
{
    lemma2_to64();
    let n = policy.interval.nanos as int;
    assert(pow2(0) == 1);
    assert(n * 1 == n) by (nonlinear_arith);
    if attempt < 8 {
        law_delay_doubles(policy, attempt);
    }
}

/// With a limit, that many retries are left and no more. Without one there always
/// is another.
pub proof fn law_when_retries_are_left(policy: RetryPolicy, attempt: u32)
    ensures
        policy.exhausted_spec(attempt) <==> (policy.max_retries matches Some(max) && attempt > max),
        policy.max_retries is None ==> !policy.exhausted_spec(attempt),
{
}

/// A fetch with retries returns a value at once. It returns an error when the limit
/// is reached or the predicate turns the error down, and otherwise backs off for
/// the next retry; without a predicate it never turns one down.
pub proof fn law_errors_are_retried_while_retries_are_left<R: ?Sized, F, P, T, E>(
    retry: Retry<R, F, P>,
    attempt: u32,
    result: Result<T, E>,
    step: RetryStep<T, E>,
) where P: Fn(&E) -> bool
    requires
        attempt < u32::MAX,
        call_ensures(Retry::<R, F, P>::after_attempt::<T, E>, (&retry, attempt, result), step),
    ensures
        result matches Ok(value) ==> step == RetryStep::<T, E>::Return(Ok(value)),
        result matches Err(error) ==> {
            let limit = retry.policy_spec().max_retries;
            let spent = limit matches Some(max) && attempt >= max;
            &&& spent ==> step == RetryStep::<T, E>::Return(Err(error))
            &&& !spent && retry.should_retry_spec() is None ==> step == (RetryStep::<
                T,
                E,
            >::Backoff { attempt: (attempt + 1) as u32 })
            &&& !spent ==> (retry.should_retry_spec() matches Some(pred) ==> {
                ||| call_ensures(*pred, (&error,), true) && step == (RetryStep::<T, E>::Backoff {
                    attempt: (attempt + 1) as u32,
                })
                ||| call_ensures(*pred, (&error,), false) && step == RetryStep::<T, E>::Return(
                    Err(error),
                )
            })
        },
{
    if let Err(error) = result {
        if !retry.policy_spec().exhausted_spec((attempt + 1) as u32) {
            let answer = choose|answer: bool| #[trigger]
                retry.may_answer(error, answer) && step == if answer {
                    RetryStep::<T, E>::Backoff { attempt: (attempt + 1) as u32 }
                } else {
                    RetryStep::Return(Err(error))
                };
            assert(retry.may_answer(error, answer));
        }
    }
}

} // verus!
