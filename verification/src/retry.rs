//! Retry policies: how often an operation is tried, how long to wait
//! between attempts, and how long each attempt may take to send.
//!
//! Attempts are counted from 1.

use vstd::prelude::*;

verus! {

/// The rule by which a failing operation is tried again.
#[derive(Clone, Copy, Debug, PartialEq, Eq, Structural)]
pub struct RetryPolicy {
    /// The number of attempts after which the operation is given up.
    pub max_attempts: u32,
    /// A failed attempt `n` is followed by a pause of `n` times this many
    /// seconds.
    pub backoff_step_seconds: u32,
}

/// What follows a failed attempt.
#[derive(Clone, Copy, Debug, PartialEq, Eq, Structural)]
pub enum RetryDecision {
    /// Wait this many seconds, then try again.
    RetryAfter { seconds: u64 },
    /// No attempt is left.
    GiveUp,
}

/// The number of attempts to transfer one file.
pub const TRANSFER_ATTEMPTS: u32 = 5;

/// The seconds that one attempt may take to send its request: one entry
/// for each attempt, the last for every later one.
pub const SEND_TIMEOUT_SECONDS: [u64; 5] = [600, 900, 1200, 1800, 2400];

impl RetryPolicy {
    /// The pause that follows the failed attempt `attempt`, in seconds.
    pub open spec fn backoff(self, attempt: u32) -> nat {
        (attempt * self.backoff_step_seconds) as nat
    }

    /// What follows the failed attempt `attempt`: a pause and one more
    /// attempt while fewer than `max_attempts` were made, else the end.
    pub open spec fn decision(self, attempt: u32) -> RetryDecision {
        if attempt < self.max_attempts {
            RetryDecision::RetryAfter { seconds: self.backoff(attempt) as u64 }
        } else {
            RetryDecision::GiveUp
        }
    }

    /// The policy of a file transfer: 5 attempts, and 3, 6, 9 and 12
    /// seconds between them.
    pub open spec fn transfer_policy() -> RetryPolicy {
        RetryPolicy { max_attempts: TRANSFER_ATTEMPTS, backoff_step_seconds: 3 }
    }

    /// The policy of fetching the archive's index: 5 attempts, and 2, 4, 6
    /// and 8 seconds between them.
    pub open spec fn index_policy() -> RetryPolicy {
        RetryPolicy { max_attempts: 5, backoff_step_seconds: 2 }
    }

    /// The policy of fetching a folder's listing: 3 attempts, and 2 and 4
    /// seconds between them.
    pub open spec fn folder_policy() -> RetryPolicy {
        RetryPolicy { max_attempts: 3, backoff_step_seconds: 2 }
    }

    /// The policy of a file transfer.
    pub fn transfer() -> (policy: RetryPolicy)
        ensures
            policy == Self::transfer_policy(),
    {
        RetryPolicy { max_attempts: TRANSFER_ATTEMPTS, backoff_step_seconds: 3 }
    }

    /// The policy of fetching the archive's index.
    pub fn index_listing() -> (policy: RetryPolicy)
        ensures
            policy == Self::index_policy(),
    {
        RetryPolicy { max_attempts: 5, backoff_step_seconds: 2 }
    }

    /// The policy of fetching a folder's listing.
    pub fn folder_listing() -> (policy: RetryPolicy)
        ensures
            policy == Self::folder_policy(),
    {
        RetryPolicy { max_attempts: 3, backoff_step_seconds: 2 }
    }

    /// The pause that follows the failed attempt `attempt`, in seconds.
    pub fn backoff_seconds(&self, attempt: u32) -> (seconds: u64)
        ensures
            seconds == self.backoff(attempt),
    {
        assert(attempt * self.backoff_step_seconds <= 0xffff_ffff * 0xffff_ffff) by (nonlinear_arith)
            requires
                attempt <= 0xffff_ffff,
                self.backoff_step_seconds <= 0xffff_ffff,
        ;
        attempt as u64 * self.backoff_step_seconds as u64
    }

    /// What follows the failed attempt `attempt`.
    pub fn after_failure(&self, attempt: u32) -> (next: RetryDecision)
        ensures
            next == self.decision(attempt),
    {
        if attempt < self.max_attempts {
            RetryDecision::RetryAfter { seconds: self.backoff_seconds(attempt) }
        } else {
            RetryDecision::GiveUp
        }
    }
}

/// The seconds that attempt `attempt` of a transfer may take to send its
/// request: 600, 900, 1200, 1800, and 2400 from the fifth attempt on.
pub open spec fn send_timeout(attempt: u32) -> u64 {
    if attempt <= 1 {
        600
    } else if attempt == 2 {
        900
    } else if attempt == 3 {
        1200
    } else if attempt == 4 {
        1800
    } else {
        2400
    }
}

/// The seconds that attempt `attempt` of a transfer may take to send its
/// request.
pub fn send_timeout_seconds(attempt: u32) -> (seconds: u64)
    ensures
        seconds == send_timeout(attempt),
        attempt >= 1 ==> seconds == SEND_TIMEOUT_SECONDS[if attempt <= 5 {
            attempt - 1
        } else {
            4
        }],
{
    let slot: usize = if attempt == 0 {
        0
    } else if attempt <= 5 {
        (attempt - 1) as usize
    } else {
        4
    };
    SEND_TIMEOUT_SECONDS[slot]
}

/// A policy is followed to its end: the pauses grow with the attempts,
/// every attempt before the last is followed by one more, and the last by
/// none.
pub proof fn lemma_policy_gives_up_at_the_last_attempt(policy: RetryPolicy, attempt: u32)
    requires
        1 <= attempt <= policy.max_attempts,
    ensures
        policy.decision(attempt) is GiveUp <==> attempt == policy.max_attempts,
        attempt < policy.max_attempts ==> policy.decision(attempt) == (RetryDecision::RetryAfter {
            seconds: (attempt * policy.backoff_step_seconds) as u64,
        }),
        attempt < policy.max_attempts ==> policy.backoff(attempt) <= policy.backoff(
            (attempt + 1) as u32,
        ),
{
    assert(attempt * policy.backoff_step_seconds <= (attempt + 1) * policy.backoff_step_seconds)
        by (nonlinear_arith);
}

} // verus!
