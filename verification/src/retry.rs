//! Retry decisions for sending a datagram: each failed attempt is retried
//! after a fixed delay until the retry budget is spent.

use vstd::prelude::*;

verus! {

/// Retries that forwarding a packet through the relay may make.
pub const FORWARD_MAX_RETRIES: usize = 3;

/// Delay between two forwarding attempts, in milliseconds.
pub const FORWARD_RETRY_DELAY_MS: u64 = 100;

/// The retry state of one send: how many retries it may make, how long to
/// wait before each, and how many it has made.
pub struct RetryPolicy {
    pub max_retries: usize,
    pub retry_delay_ms: u64,
    pub retries: usize,
}

/// What to do after one attempt to send.
pub enum SendStep<E> {
    /// The datagram went out with this many bytes.
    Sent(usize),
    /// The attempt failed with `error`; wait `delay_ms` and make retry
    /// number `attempt` (counting from 1).
    Retry { error: E, attempt: usize, delay_ms: u64 },
    /// The attempt failed with this error and no retry is left.
    Failed(E),
}

/// The retry state after one more failed attempt.
pub open spec fn after_failure(p: RetryPolicy) -> RetryPolicy {
    if p.retries < p.max_retries {
        RetryPolicy { retries: (p.retries + 1) as usize, ..p }
    } else {
        p
    }
}

/// Whether a failed attempt in state `p` ends the send.
pub open spec fn gives_up(p: RetryPolicy) -> bool {
    p.retries >= p.max_retries
}

/// The retry state after `k` failed attempts in a row, starting from `p`.
pub open spec fn after_failures(p: RetryPolicy, k: nat) -> RetryPolicy
    decreases k,
{
    if k == 0 {
        p
    } else {
        after_failure(after_failures(p, (k - 1) as nat))
    }
}

impl RetryPolicy {
    /// A fresh send that may retry `max_retries` times, `retry_delay_ms`
    /// milliseconds apart.
    pub fn new(max_retries: usize, retry_delay_ms: u64) -> (p: RetryPolicy)
        ensures
            p.max_retries == max_retries,
            p.retry_delay_ms == retry_delay_ms,
            p.retries == 0,
    {
        RetryPolicy { max_retries, retry_delay_ms, retries: 0 }
    }

    /// A fresh send of the relay's forwarding: three retries, 100 ms apart.
    pub fn forwarding() -> (p: RetryPolicy)
        ensures
            p.max_retries == FORWARD_MAX_RETRIES,
            p.retry_delay_ms == FORWARD_RETRY_DELAY_MS,
            p.retries == 0,
    {
        RetryPolicy::new(FORWARD_MAX_RETRIES, FORWARD_RETRY_DELAY_MS)
    }

    /// Decides what follows an attempt whose result is `outcome`: a success
    /// ends the send; a failure is retried while retries are left, and ends
    /// the send otherwise.
    pub fn on_attempt<E>(&mut self, outcome: Result<usize, E>) -> (step: SendStep<E>)
        ensures
            match outcome {
                Ok(n) => step == SendStep::<E>::Sent(n) && *final(self) == *old(self),
                Err(e) => {
                    &&& *final(self) == after_failure(*old(self))
                    &&& if gives_up(*old(self)) {
                        step == SendStep::Failed(e)
                    } else {
                        step == (SendStep::Retry {
                            error: e,
                            attempt: final(self).retries,
                            delay_ms: old(self).retry_delay_ms,
                        })
                    }
                },
            },
    {
        match outcome {
            Ok(n) => SendStep::Sent(n),
            Err(e) => {
                if self.retries < self.max_retries {
                    self.retries = self.retries + 1;
                    SendStep::Retry { error: e, attempt: self.retries, delay_ms: self.retry_delay_ms }
                } else {
                    SendStep::Failed(e)
                }
            },
        }
    }
}

/// Failures in a row from a fresh send: after `k` of them, `min(k, max)`
/// retries have been made, and a further failure ends the send exactly when
/// `k` has reached `max_retries`. So a send that keeps failing makes
/// `max_retries + 1` attempts in all.
pub proof fn lemma_retry_budget(p: RetryPolicy, k: nat)
    requires
        p.retries == 0,
    ensures
        after_failures(p, k).retries == if k < p.max_retries {
            k
        } else {
            p.max_retries as nat
        },
        after_failures(p, k).max_retries == p.max_retries,
        after_failures(p, k).retry_delay_ms == p.retry_delay_ms,
        gives_up(after_failures(p, k)) <==> k >= p.max_retries,
    decreases k,
{
    if k > 0 {
        lemma_retry_budget(p, (k - 1) as nat);
    }
}

} // verus!
