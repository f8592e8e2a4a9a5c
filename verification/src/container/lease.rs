//! How long an idle job lives: its lease runs out once nobody has touched it for
//! its expiration (or for the start-up grace, before the first interaction).
use vstd::prelude::*;

verus! {

/// Times are milliseconds on a monotonic clock.
pub struct ActivityExpiration {
    pub expiration_ms: u64,
    pub startup_grace_ms: u64,
    pub last_activity_ms: u64,
    pub interacted: bool,
}

impl ActivityExpiration {
    pub open spec fn spec_active_expiration(&self) -> u64 {
        if self.interacted {
            self.expiration_ms
        } else if self.expiration_ms >= self.startup_grace_ms {
            self.expiration_ms
        } else {
            self.startup_grace_ms
        }
    }

    pub open spec fn spec_elapsed_at(&self, now_ms: u64) -> bool {
        (if now_ms >= self.last_activity_ms { now_ms - self.last_activity_ms } else { 0 }) >= self.spec_active_expiration()
    }

    pub fn new_at(expiration_ms: u64, startup_grace_ms: u64, now_ms: u64) -> (lease: Self)
        ensures
            lease == (ActivityExpiration { expiration_ms, startup_grace_ms, last_activity_ms: now_ms, interacted: false }),
    {
        ActivityExpiration { expiration_ms, startup_grace_ms, last_activity_ms: now_ms, interacted: false }
    }

    pub fn active_expiration(&self) -> (expiration_ms: u64)
        ensures
            expiration_ms == self.spec_active_expiration(),
    {
        if self.interacted {
            self.expiration_ms
        } else if self.expiration_ms >= self.startup_grace_ms {
            self.expiration_ms
        } else {
            self.startup_grace_ms
        }
    }

    pub fn observe_interaction_at(&mut self, now_ms: u64)
        ensures
            *final(self) == (ActivityExpiration { last_activity_ms: now_ms, interacted: true, ..*old(self) }),
    {
        self.last_activity_ms = now_ms;
        self.interacted = true;
    }

    pub fn observe_exit_at(&mut self, now_ms: u64)
        ensures
            *final(self) == (ActivityExpiration { last_activity_ms: now_ms, ..*old(self) }),
    {
        self.last_activity_ms = now_ms;
    }

    pub fn elapsed_at(&self, now_ms: u64) -> (elapsed: bool)
        ensures
            elapsed == self.spec_elapsed_at(now_ms),
    {
        let idle = if now_ms >= self.last_activity_ms { now_ms - self.last_activity_ms } else { 0 };
        idle >= self.active_expiration()
    }
}

/// Once a lease has run out it stays run out while nothing touches it.
pub proof fn lease_expiry_is_monotonic(lease: ActivityExpiration, earlier_ms: u64, later_ms: u64)
    requires
        earlier_ms <= later_ms,
        lease.spec_elapsed_at(earlier_ms),
    ensures
        lease.spec_elapsed_at(later_ms),
{
}

/// An interaction renews a lease: right after it, with a positive expiration,
/// the lease has not run out.
pub proof fn interaction_renews_lease(lease: ActivityExpiration, now_ms: u64)
    requires
        lease.expiration_ms > 0,
    ensures
        !(ActivityExpiration { last_activity_ms: now_ms, interacted: true, ..lease }).spec_elapsed_at(now_ms),
{
}

/// Before the first interaction the lease lasts at least the start-up grace.
pub proof fn startup_grace_is_honoured(expiration_ms: u64, startup_grace_ms: u64, start_ms: u64, now_ms: u64)
    requires
        start_ms <= now_ms,
        now_ms - start_ms < startup_grace_ms,
    ensures
        !(ActivityExpiration { expiration_ms, startup_grace_ms, last_activity_ms: start_ms, interacted: false }).spec_elapsed_at(now_ms),
{
}

} // verus!
