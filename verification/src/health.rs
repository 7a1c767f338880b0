//! Health monitor: a state machine over a consecutive-failure counter.
//!
//! A periodic task polls subprocess liveness on a fixed period.  Each negative
//! poll strictly increments a consecutive-failure counter; while that counter
//! is at or below the configured ceiling a restart is attempted, and a restart
//! that succeeds resets the counter.  Once the counter exceeds the ceiling the
//! monitor stops acting but keeps observing: a positive poll at any time
//! resets the counter unconditionally.

use vstd::prelude::*;

verus! {

/// The counter after absorbing one liveness poll.
pub open spec fn spec_counter_after(cf: u32, alive: bool) -> u32 {
    if alive {
        0u32
    } else if cf < u32::MAX {
        (cf + 1) as u32
    } else {
        cf
    }
}

/// Whether a restart is attempted on the tick that absorbed this poll.
pub open spec fn spec_attempts_restart(cf: u32, alive: bool, ceiling: u32) -> bool {
    !alive && spec_counter_after(cf, alive) <= ceiling
}

/// Tracks consecutive liveness failures and decides when to attempt restarts.
pub struct HealthMonitor {
    /// Number of consecutive negative liveness polls since the last positive
    /// poll or successful restart.
    pub consecutive_failures: u32,
    /// Maximum number of restart attempts: with a ceiling of `n`, the first
    /// `n` consecutive failures each trigger an attempt and later ones do not.
    pub max_restart_attempts: u32,
}

impl HealthMonitor {
    /// A fresh monitor with no failures recorded.
    pub fn new(max_restart_attempts: u32) -> (r: HealthMonitor)
        ensures
            r.consecutive_failures == 0,
            r.max_restart_attempts == max_restart_attempts,
    {
        HealthMonitor { consecutive_failures: 0, max_restart_attempts }
    }

    /// Absorb one liveness poll; returns whether a restart attempt is due.
    ///
    /// A positive poll resets the counter unconditionally, even when no
    /// failure is active.  A negative poll strictly increments it
    /// (saturating at the counter type's maximum, which no real run
    /// reaches), and an attempt is due exactly while the incremented
    /// counter is at or below the ceiling.
    pub fn observe(&mut self, alive: bool) -> (attempt: bool)
        ensures
            final(self).max_restart_attempts == old(self).max_restart_attempts,
            final(self).consecutive_failures == spec_counter_after(
                old(self).consecutive_failures,
                alive,
            ),
            attempt == spec_attempts_restart(
                old(self).consecutive_failures,
                alive,
                old(self).max_restart_attempts,
            ),
    {
        if alive {
            self.consecutive_failures = 0;
            false
        } else {
            if self.consecutive_failures < u32::MAX {
                self.consecutive_failures = self.consecutive_failures + 1;
            }
            self.consecutive_failures <= self.max_restart_attempts
        }
    }

    /// Absorb the outcome of a restart attempt: success resets the counter,
    /// failure leaves it unchanged (the next negative poll increments it
    /// further).
    pub fn restart_result(&mut self, ok: bool)
        ensures
            final(self).max_restart_attempts == old(self).max_restart_attempts,
            ok ==> final(self).consecutive_failures == 0,
            !ok ==> final(self).consecutive_failures == old(self).consecutive_failures,
    {
        if ok {
            self.consecutive_failures = 0;
        }
    }

    /// Whether the monitor has given up acting (but not observing).
    pub fn exhausted(&self) -> (r: bool)
        ensures
            r == (self.consecutive_failures > self.max_restart_attempts),
    {
        self.consecutive_failures > self.max_restart_attempts
    }
}

/// The counter after `n` consecutive negative polls from a reset state, with
/// no successful restart in between.
pub open spec fn spec_counter_after_failures(n: nat) -> u32
    decreases n,
{
    if n == 0 {
        0u32
    } else {
        spec_counter_after(spec_counter_after_failures((n - 1) as nat), false)
    }
}

} // verus!
