//! How long an interaction waits: until its timeout, or until the output has
//! been quiet for a while.
use vstd::prelude::*;

verus! {

/// Milliseconds between two probes of a job.
pub const PROBE_INTERVAL_MS: u64 = 100;
/// Probes without new output after which output counts as settled.
pub const UNCHANGED_PROBES: u64 = 15;
/// Quiet period after output, in milliseconds.
pub const OUTPUT_QUIET_PERIOD_MS: u64 = 1500;

/// Deadlines are milliseconds on a monotonic clock; `None` is a deadline that
/// could not be represented and so never comes.
pub struct WaitPolicy {
    pub deadline_ms: Option<u64>,
    pub quiet_deadline_ms: Option<u64>,
}

pub open spec fn checked_add_spec(a: u64, b: u64) -> Option<u64> {
    if a + b <= u64::MAX { Some((a + b) as u64) } else { None }
}

/// Time left until `deadline` at `now`: `None` once it has passed, `u64::MAX`
/// for a deadline that never comes.
pub open spec fn spec_remaining(deadline: Option<u64>, now_ms: u64) -> Option<u64> {
    match deadline {
        Some(d) => if d >= now_ms { Some((d - now_ms) as u64) } else { None },
        None => Some(u64::MAX),
    }
}

pub fn remaining(deadline: Option<u64>, now_ms: u64) -> (left: Option<u64>)
    ensures
        left == spec_remaining(deadline, now_ms),
{
    match deadline {
        Some(d) => if d >= now_ms { Some(d - now_ms) } else { None },
        None => Some(u64::MAX),
    }
}

impl WaitPolicy {
    pub fn new(timeout_ms: u64, last_output_at_ms: Option<u64>, now_ms: u64) -> (policy: Self)
        ensures
            policy.deadline_ms == checked_add_spec(now_ms, timeout_ms),
            policy.quiet_deadline_ms == (match last_output_at_ms {
                Some(at) => checked_add_spec(at, OUTPUT_QUIET_PERIOD_MS),
                None => None,
            }),
    {
        WaitPolicy {
            deadline_ms: now_ms.checked_add(timeout_ms),
            quiet_deadline_ms: match last_output_at_ms {
                Some(at) => at.checked_add(OUTPUT_QUIET_PERIOD_MS),
                None => None,
            },
        }
    }

    /// New output moves the quiet deadline to one quiet period from now.
    pub fn observe_output(&mut self, changed: bool, now_ms: u64)
        requires
            changed ==> now_ms + OUTPUT_QUIET_PERIOD_MS <= u64::MAX,
        ensures
            final(self).deadline_ms == old(self).deadline_ms,
            changed ==> final(self).quiet_deadline_ms == Some((now_ms + OUTPUT_QUIET_PERIOD_MS) as u64),
            !changed ==> final(self).quiet_deadline_ms == old(self).quiet_deadline_ms,
    {
        if changed {
            self.quiet_deadline_ms = Some(now_ms + OUTPUT_QUIET_PERIOD_MS);
        }
    }

    pub open spec fn spec_remaining(&self, now_ms: u64) -> Option<u64> {
        match (spec_remaining(self.deadline_ms, now_ms), spec_remaining(self.quiet_deadline_ms, now_ms)) {
            (Some(timeout), Some(quiet)) => Some(if timeout <= quiet { timeout } else { quiet }),
            _ => None,
        }
    }

    /// Time left to wait: the nearer of the two deadlines, `None` once either has passed.
    pub fn remaining(&self, now_ms: u64) -> (left: Option<u64>)
        ensures
            left == self.spec_remaining(now_ms),
    {
        let timeout = match remaining(self.deadline_ms, now_ms) {
            Some(timeout) => timeout,
            None => return None,
        };
        let quiet = match remaining(self.quiet_deadline_ms, now_ms) {
            Some(quiet) => quiet,
            None => return None,
        };
        Some(if timeout <= quiet { timeout } else { quiet })
    }
}

/// A wait never outlasts its timeout: the time left is at most the time to the deadline.
pub proof fn wait_never_outlasts_timeout(policy: WaitPolicy, now_ms: u64)
    ensures
        policy.spec_remaining(now_ms) matches Some(left) ==> (policy.deadline_ms matches Some(d) ==> now_ms + left <= d),
{
}

} // verus!
