//! Retrying a failing operation a bounded number of times. The pauses
//! between attempts (which grow by a factor and carry random jitter) are
//! computed by the driver; the decisions are taken here.

use vstd::prelude::*;

verus! {

/// What to do after an attempt.
#[derive(Debug, Clone, Copy, PartialEq, Eq, Structural)]
pub enum RetryDecision {
    /// The attempt succeeded: return its result.
    Succeed,
    /// The last allowed attempt failed: return its error.
    Fail,
    /// Pause, then try again.
    Retry,
}

/// The progress of a bounded retry loop.
pub struct RetryState {
    pub attempt: u32,
    pub max_retries: u32,
}

impl RetryState {
    /// Attempts are counted from 1 up to the limit.
    pub open spec fn wf(&self) -> bool {
        1 <= self.attempt <= self.max_retries
    }

    /// The state before the first attempt; no attempt is allowed (and no
    /// state exists) when the limit is zero.
    pub fn start(max_retries: u32) -> (r: Option<RetryState>)
        ensures
            max_retries == 0 ==> r is None,
            max_retries > 0 ==> (r matches Some(s) && s.attempt == 1 && s.max_retries == max_retries && s.wf()),
    {
        if max_retries == 0 {
            None
        } else {
            Some(RetryState { attempt: 1, max_retries })
        }
    }

    /// Takes in whether the current attempt succeeded.
    pub fn on_attempt(&mut self, succeeded: bool) -> (r: RetryDecision)
        requires
            old(self).wf(),
        ensures
            succeeded ==> r == RetryDecision::Succeed && *final(self) == *old(self),
            !succeeded && old(self).attempt == old(self).max_retries ==> r == RetryDecision::Fail && *final(self) == *old(self),
            !succeeded && old(self).attempt < old(self).max_retries ==> r == RetryDecision::Retry
                && final(self).attempt == old(self).attempt + 1 && final(self).max_retries == old(self).max_retries,
            final(self).wf(),
    {
        if succeeded {
            RetryDecision::Succeed
        } else if self.attempt == self.max_retries {
            RetryDecision::Fail
        } else {
            self.attempt = self.attempt + 1;
            RetryDecision::Retry
        }
    }
}

/// The pause before the next attempt: the grown pause, but never more than
/// the configured maximum.
pub fn next_delay_millis(grown_millis: u64, max_millis: u64) -> (r: u64)
    ensures
        r == if grown_millis < max_millis { grown_millis } else { max_millis },
{
    if grown_millis < max_millis {
        grown_millis
    } else {
        max_millis
    }
}

} // verus!
