//! The notifier's retry policy.  The provider call itself crosses the
//! network and lives outside; what is verified here is every decision
//! around it: how a provider response is classified, and what follows
//! each attempt — success, immediate rejection, a bounded retry with
//! exponential backoff and caller-supplied jitter, or giving up.

use vstd::prelude::*;
use vstd::arithmetic::power2::{pow2, lemma_pow2_pos, lemma_pow2_strictly_increases, lemma2_to64, lemma2_to64_rest};
use vstd::bits::lemma_u64_shl_is_mul;

verus! {

/// How one provider attempt ended, as classified from the transport.
#[derive(Clone, Copy, Debug, PartialEq, Eq)]
pub enum AttemptOutcome {
    /// The provider accepted the message.
    Delivered,
    /// A timeout or a provider-side (5xx) error: retrying can help.
    TransientFailure,
    /// The provider rejected the request (4xx): retrying cannot help.
    PermanentFailure,
}

/// Why a send failed for good.
#[derive(Clone, Copy, Debug, PartialEq, Eq)]
pub enum SendError {
    /// The provider rejected the request permanently.
    Rejected,
    /// Transient failures exhausted the attempt budget.
    Unavailable,
}

/// What follows one provider attempt.
#[derive(Clone, Copy, Debug, PartialEq, Eq)]
pub enum SendDecision {
    /// The send is complete.
    Succeed,
    /// The send failed for good.
    Fail(SendError),
    /// Try again after this many milliseconds.
    RetryAfter(u64),
}

/// One transactional email for the provider edge to send: an immutable
/// value that carries no identity beyond its fields.
pub struct EmailSendRequest {
    pub recipient: Vec<u8>,
    pub subject: Vec<u8>,
    pub html_body: Vec<u8>,
    pub text_body: Vec<u8>,
}

/// Any 2xx response is success; no response (a timeout) or a 5xx is
/// transient; everything else is permanent.
pub open spec fn spec_classify(status: Option<u16>) -> AttemptOutcome {
    match status {
        None => AttemptOutcome::TransientFailure,
        Some(c) => if 200 <= c < 300 {
            AttemptOutcome::Delivered
        } else if c >= 500 {
            AttemptOutcome::TransientFailure
        } else {
            AttemptOutcome::PermanentFailure
        },
    }
}

/// Classify one provider response; `None` stands for a timed-out call.
pub fn classify_response(status: Option<u16>) -> (r: AttemptOutcome)
    ensures
        r == spec_classify(status),
{
    match status {
        None => AttemptOutcome::TransientFailure,
        Some(c) => if 200 <= c && c < 300 {
            AttemptOutcome::Delivered
        } else if c >= 500 {
            AttemptOutcome::TransientFailure
        } else {
            AttemptOutcome::PermanentFailure
        },
    }
}

/// The retry policy: at most `max_attempts` provider calls per send,
/// exponential backoff starting from `base_delay_ms`.
#[derive(Clone, Copy, Debug, PartialEq, Eq)]
pub struct RetryPolicy {
    pub max_attempts: u32,
    pub base_delay_ms: u64,
}

/// The delay before the next attempt when `attempts_made` attempts are
/// already behind us: `base * 2^attempts_made + jitter`, saturating.
pub open spec fn spec_backoff(base: u64, attempts_made: u32, jitter: u64) -> u64 {
    let raw = base * pow2(attempts_made as nat) + jitter;
    if raw > u64::MAX {
        u64::MAX
    } else {
        raw as u64
    }
}

/// What follows the attempt that just ended with `outcome`, when
/// `attempts_made` attempts (this one included) are already behind us.
pub open spec fn spec_decide(
    policy: RetryPolicy,
    attempts_made: u32,
    outcome: AttemptOutcome,
    jitter_ms: u64,
) -> SendDecision {
    match outcome {
        AttemptOutcome::Delivered => SendDecision::Succeed,
        AttemptOutcome::PermanentFailure => SendDecision::Fail(SendError::Rejected),
        AttemptOutcome::TransientFailure => if attempts_made >= policy.max_attempts {
            SendDecision::Fail(SendError::Unavailable)
        } else {
            SendDecision::RetryAfter(spec_backoff(policy.base_delay_ms, attempts_made, jitter_ms))
        },
    }
}

/// Compute the saturating exponential backoff delay.
pub fn backoff_delay(base: u64, attempts_made: u32, jitter: u64) -> (r: u64)
    ensures
        r == spec_backoff(base, attempts_made, jitter),
{
    proof {
        lemma_pow2_pos(attempts_made as nat);
    }
    if base == 0 {
        return jitter;
    }
    if attempts_made >= 64 {
        proof {
            if attempts_made as nat > 64 {
                lemma_pow2_strictly_increases(64, attempts_made as nat);
            }
            lemma2_to64();
            lemma2_to64_rest();
            assert(base * pow2(attempts_made as nat) >= pow2(attempts_made as nat)) by (
            nonlinear_arith)
                requires
                    base >= 1,
                    pow2(attempts_made as nat) > 0,
            ;
        }
        return u64::MAX;
    }
    proof {
        lemma2_to64();
        lemma2_to64_rest();
        if (attempts_made as nat) < 63 {
            lemma_pow2_strictly_increases(attempts_made as nat, 63);
        }
        assert(pow2(attempts_made as nat) <= 0x8000000000000000);
        assert(1u64 * pow2(attempts_made as nat) <= u64::MAX) by (nonlinear_arith)
            requires
                pow2(attempts_made as nat) <= 0x8000000000000000,
        ;
        lemma_u64_shl_is_mul(1u64, attempts_made as u64);
    }
    let factor: u64 = 1u64 << (attempts_made as u64);
    let product = match base.checked_mul(factor) {
        None => {
            return u64::MAX;
        },
        Some(p) => p,
    };
    match product.checked_add(jitter) {
        None => u64::MAX,
        Some(total) => total,
    }
}

/// Decide what follows one provider attempt: success ends the send, a
/// permanent failure is rejected at once and never retried, and a
/// transient failure is retried with exponential backoff until the
/// attempt budget is spent, then surfaces as unavailable.
pub fn decide_next(
    policy: &RetryPolicy,
    attempts_made: u32,
    outcome: AttemptOutcome,
    jitter_ms: u64,
) -> (r: SendDecision)
    ensures
        r == spec_decide(*policy, attempts_made, outcome, jitter_ms),
{
    match outcome {
        AttemptOutcome::Delivered => SendDecision::Succeed,
        AttemptOutcome::PermanentFailure => SendDecision::Fail(SendError::Rejected),
        AttemptOutcome::TransientFailure => if attempts_made >= policy.max_attempts {
            SendDecision::Fail(SendError::Unavailable)
        } else {
            SendDecision::RetryAfter(backoff_delay(policy.base_delay_ms, attempts_made, jitter_ms))
        },
    }
}

/// Retries stop within the budget: once `max_attempts` attempts are
/// made, a transient failure is never retried again.
pub proof fn lemma_retries_bounded(
    policy: RetryPolicy,
    attempts_made: u32,
    outcome: AttemptOutcome,
    jitter_ms: u64,
)
    requires
        attempts_made >= policy.max_attempts,
    ensures
        !(spec_decide(policy, attempts_made, outcome, jitter_ms) is RetryAfter),
{
}

} // verus!
