//! Retry policy: error classification, backoff delays, and per-call
//! statistics.
//!
//! A request is attempted up to `max_retries + 1` times. Transport failures
//! retry; statuses in the permanent set never retry; statuses in the
//! retryable set, or any server error, retry; decode and schema failures are
//! permanent. The delay before each retry follows the configured backoff
//! strategy and never exceeds the configured cap (except for the constant
//! strategy, which always waits the base delay).

use vstd::prelude::*;
use vstd::arithmetic::power2::pow2;
use vstd::arithmetic::power2::lemma_pow2_strictly_increases;
use vstd::bits::lemma_u64_shl_is_mul;
use vstd::arithmetic::power2::lemma2_to64;
use vstd::arithmetic::power2::lemma2_to64_rest;
use rand::Rng;
use crate::api::ApiErrorModel;
use crate::api::ApiError;
use crate::models::opt_str_model;

verus! {

/// How the delay between retries grows.
#[derive(Debug, Clone, Copy, PartialEq, Eq, Structural)]
pub enum BackoffStrategy {
    /// The same delay before every retry.
    Constant,
    /// The base delay times the attempt number, capped.
    Linear,
    /// The base delay doubled with each attempt, capped.
    Exponential,
    /// A uniformly random delay between zero and the exponential delay.
    ExponentialWithJitter,
}

/// Statistics about one call's retries.
#[derive(Debug, Clone, Default)]
pub struct RetryStats {
    /// Number of retry attempts made.
    pub attempts: u64,
    /// Total time spent in retry delays, in milliseconds.
    pub total_delay_ms: u64,
    /// Whether the operation eventually succeeded.
    pub succeeded: bool,
    /// The last error encountered, if the operation failed.
    pub last_error: Option<String>,
}

impl RetryStats {
    /// Fresh statistics: no attempts, no delay, no success, no error.
    pub fn new() -> (r: Self)
        ensures
            r.attempts == 0,
            r.total_delay_ms == 0,
            !r.succeeded,
            r.last_error is None,
    {
        Self { attempts: 0, total_delay_ms: 0, succeeded: false, last_error: None }
    }

    /// Records one retry attempt and the delay spent before it.
    pub fn record_attempt(&mut self, delay_ms: u64)
        requires
            old(self).attempts < u64::MAX,
            old(self).total_delay_ms + delay_ms <= u64::MAX,
        ensures
            final(self).attempts == old(self).attempts + 1,
            final(self).total_delay_ms == old(self).total_delay_ms + delay_ms,
            final(self).succeeded == old(self).succeeded,
            final(self).last_error == old(self).last_error,
    {
        self.attempts = self.attempts + 1;
        self.total_delay_ms = self.total_delay_ms + delay_ms;
    }

    /// Marks the operation as having succeeded.
    pub fn mark_success(&mut self)
        ensures
            final(self).succeeded,
            final(self).attempts == old(self).attempts,
            final(self).total_delay_ms == old(self).total_delay_ms,
            final(self).last_error == old(self).last_error,
    {
        self.succeeded = true;
    }

    /// Records the last error encountered.
    pub fn record_error(&mut self, error: &str)
        ensures
            opt_str_model(final(self).last_error) == Some(error@),
            final(self).attempts == old(self).attempts,
            final(self).total_delay_ms == old(self).total_delay_ms,
            final(self).succeeded == old(self).succeeded,
    {
        self.last_error = Some(<String as vstd::string::StringExecFns>::from_str(error));
    }
}

/// Configuration of the retry behaviour.
#[derive(Debug, Clone)]
pub struct RetryConfig {
    /// Maximum number of retries after the first attempt.
    pub max_retries: u64,
    /// Base delay between retries, in milliseconds.
    pub base_delay_ms: u64,
    /// How the delay grows between attempts.
    pub backoff_strategy: BackoffStrategy,
    /// Cap on the delay between retries, in milliseconds.
    pub max_delay_ms: u64,
    /// Whether to track retry statistics.
    pub track_stats: bool,
    /// Status codes that should trigger a retry.
    pub retryable_status_codes: Vec<u16>,
    /// Status codes treated as permanent failures; these take precedence
    /// over the retryable set.
    pub permanent_failure_status_codes: Vec<u16>,
}

impl Default for RetryConfig {
    /// Three retries with jittered exponential backoff from half a second,
    /// capped at thirty seconds; common transient statuses retry, common
    /// client errors do not.
    fn default() -> (r: Self)
        ensures
            r.max_retries == 3,
            r.base_delay_ms == 500,
            r.backoff_strategy == BackoffStrategy::ExponentialWithJitter,
            r.max_delay_ms == 30000,
            !r.track_stats,
            r.retryable_status_codes@ == seq![408u16, 429u16, 500u16, 502u16, 503u16, 504u16],
            r.permanent_failure_status_codes@ == seq![400u16, 401u16, 403u16, 404u16],
    {
        let r = Self {
            max_retries: 3,
            base_delay_ms: 500,
            backoff_strategy: BackoffStrategy::ExponentialWithJitter,
            max_delay_ms: 30000,
            track_stats: false,
            retryable_status_codes: vec![408u16, 429u16, 500u16, 502u16, 503u16, 504u16],
            permanent_failure_status_codes: vec![400u16, 401u16, 403u16, 404u16],
        };
        proof {
            assert(r.retryable_status_codes@ =~= seq![408u16, 429u16, 500u16, 502u16, 503u16, 504u16]);
            assert(r.permanent_failure_status_codes@ =~= seq![400u16, 401u16, 403u16, 404u16]);
        }
        r
    }
}

/// A value capped at `max`.
pub open spec fn spec_capped(v: int, max: u64) -> int {
    if v > max {
        max as int
    } else {
        v
    }
}

/// The linear backoff delay: base times attempt, capped.
pub open spec fn spec_linear_delay(base: u64, attempt: u64, max: u64) -> int {
    spec_capped(base * attempt, max)
}

/// The exponential backoff delay: base times two to the attempt, capped.
pub open spec fn spec_exponential_delay(base: u64, attempt: u64, max: u64) -> int {
    spec_capped(base * pow2(attempt as nat), max)
}

/// The exponential backoff delay for an attempt number.
fn exponential_delay(base: u64, attempt: u64, max: u64) -> (r: u64)
    ensures
        r == spec_exponential_delay(base, attempt, max),
{
    proof {
        lemma2_to64();
        lemma2_to64_rest();
        vstd::arithmetic::power2::lemma_pow2_pos(attempt as nat);
    }
    if base == 0 {
        assert(base * pow2(attempt as nat) == 0) by (nonlinear_arith)
            requires
                base == 0,
        ;
        0
    } else if attempt >= 64 {
        proof {
            if attempt as nat > 64 {
                lemma_pow2_strictly_increases(64, attempt as nat);
            }
            assert(base * pow2(attempt as nat) >= pow2(attempt as nat)) by (nonlinear_arith)
                requires
                    base >= 1,
                    pow2(attempt as nat) >= 0,
            ;
        }
        max
    } else {
        proof {
            if (attempt as nat) < 63 {
                lemma_pow2_strictly_increases(attempt as nat, 63);
            }
            lemma_u64_shl_is_mul(1u64, attempt);
        }
        let m: u64 = 1u64 << attempt;
        assert(m == pow2(attempt as nat));
        match base.checked_mul(m) {
            Some(p) => {
                if p > max {
                    max
                } else {
                    p
                }
            },
            None => max,
        }
    }
}

/// Computes the delay before the retry numbered `attempt`, following the
/// configured backoff strategy. The constant strategy always waits the base
/// delay; the linear and exponential strategies are capped; the jittered
/// strategy draws a random delay no larger than the exponential one.
pub fn calculate_retry_delay(config: &RetryConfig, attempt: u64) -> (r: u64)
    ensures
        config.backoff_strategy == BackoffStrategy::Constant ==> r == config.base_delay_ms,
        config.backoff_strategy == BackoffStrategy::Linear ==> r == spec_linear_delay(
            config.base_delay_ms,
            attempt,
            config.max_delay_ms,
        ),
        config.backoff_strategy == BackoffStrategy::Exponential ==> r == spec_exponential_delay(
            config.base_delay_ms,
            attempt,
            config.max_delay_ms,
        ),
        config.backoff_strategy == BackoffStrategy::ExponentialWithJitter ==> r
            <= spec_exponential_delay(config.base_delay_ms, attempt, config.max_delay_ms),
{
    match config.backoff_strategy {
        BackoffStrategy::Constant => config.base_delay_ms,
        BackoffStrategy::Linear => {
            match config.base_delay_ms.checked_mul(attempt) {
                Some(p) => {
                    if p > config.max_delay_ms {
                        config.max_delay_ms
                    } else {
                        p
                    }
                },
                None => config.max_delay_ms,
            }
        },
        BackoffStrategy::Exponential => {
            exponential_delay(config.base_delay_ms, attempt, config.max_delay_ms)
        },
        BackoffStrategy::ExponentialWithJitter => {
            let cap = exponential_delay(config.base_delay_ms, attempt, config.max_delay_ms);
            random_up_to(cap)
        },
    }
}

/// Relies on rand's thread-local generator and `Rng::gen_range` over the
/// inclusive range `0..=bound`: the sample lies in that range.
#[verifier::external_body]
fn random_up_to(bound: u64) -> (r: u64)
    ensures
        r <= bound,
{
    rand::thread_rng().gen_range(0..=bound)
}

/// Whether a status code calls for a retry: never when it is in the
/// permanent set, otherwise when it is in the retryable set or is a server
/// error.
pub open spec fn spec_should_retry_status(
    permanent: Seq<u16>,
    retryable: Seq<u16>,
    status: u16,
) -> bool {
    if permanent.contains(status) {
        false
    } else {
        retryable.contains(status) || (500 <= status < 600)
    }
}

/// Whether the list holds the value.
fn contains_u16(v: &Vec<u16>, x: u16) -> (r: bool)
    ensures
        r == v@.contains(x),
{
    let mut i: usize = 0;
    while i < v.len()
        invariant
            0 <= i <= v@.len(),
            forall|k: int| 0 <= k < i ==> v@[k] != x,
        decreases v@.len() - i,
    {
        if v[i] == x {
            return true;
        }
        i += 1;
    }
    false
}

/// Decides whether a status code should trigger a retry.
pub fn should_retry_status(config: &RetryConfig, status: u16) -> (r: bool)
    ensures
        r == spec_should_retry_status(
            config.permanent_failure_status_codes@,
            config.retryable_status_codes@,
            status,
        ),
{
    if contains_u16(&config.permanent_failure_status_codes, status) {
        return false;
    }
    contains_u16(&config.retryable_status_codes, status) || (status >= 500 && status < 600)
}

/// Whether an error calls for a retry: transport errors and unclassified
/// failures do; decode and missing-field failures never do, because the
/// schema will not change on retry; a status failure follows the status
/// policy, and one without a status retries.
pub open spec fn spec_should_retry_error(
    permanent: Seq<u16>,
    retryable: Seq<u16>,
    e: ApiErrorModel,
) -> bool {
    match e {
        ApiErrorModel::NetworkError(_) => true,
        ApiErrorModel::RequestError { status, .. } => match status {
            Some(s) => spec_should_retry_status(permanent, retryable, s),
            None => true,
        },
        ApiErrorModel::JsonParseError(_) => false,
        ApiErrorModel::MissingFieldError(_) => false,
        _ => true,
    }
}

/// Decides whether an error should trigger another attempt.
pub fn should_retry_error(config: &RetryConfig, error: &ApiError) -> (r: bool)
    ensures
        r == spec_should_retry_error(
            config.permanent_failure_status_codes@,
            config.retryable_status_codes@,
            error@,
        ),
{
    match error {
        ApiError::NetworkError(_) => true,
        ApiError::RequestError { status, .. } => match status {
            Some(s) => should_retry_status(config, *s),
            None => true,
        },
        ApiError::JsonParseError(_) => false,
        ApiError::MissingFieldError(_) => false,
        _ => true,
    }
}

/// The exponential delay never decreases from one attempt to the next until
/// the cap holds it.
pub proof fn lemma_exponential_delay_monotone(base: u64, attempt: u64, max: u64)
    requires
        attempt < u64::MAX,
    ensures
        spec_exponential_delay(base, attempt, max) <= spec_exponential_delay(
            base,
            (attempt + 1) as u64,
            max,
        ),
        spec_exponential_delay(base, attempt, max) <= max,
{
    vstd::arithmetic::power2::lemma_pow2_pos(attempt as nat);
    assert(pow2((attempt + 1) as nat) == 2 * pow2(attempt as nat)) by {
        vstd::arithmetic::power2::lemma_pow2_unfold((attempt + 1) as nat);
    }
    assert(base * (2 * pow2(attempt as nat)) >= base * pow2(attempt as nat)) by (nonlinear_arith)
        requires
            pow2(attempt as nat) >= 1,
            base >= 0,
    ;
    assert(base * pow2(attempt as nat) >= 0) by (nonlinear_arith)
        requires
            pow2(attempt as nat) >= 1,
            base >= 0,
    ;
}

} // verus!
