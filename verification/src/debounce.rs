//! A restartable countdown that spaces out successive dispatches.
//!
//! After the loop handles a membership presentation it rearms this timer,
//! and the next read is not attempted before the deadline has passed: the
//! stricter of the two conceivable interleavings (waiting out the full
//! cooldown rather than racing it against the next read) is the one this
//! library commits to. Time is a caller-supplied monotonic instant in
//! milliseconds; the timer itself never consults a clock.

use vstd::prelude::*;

verus! {

/// A single optional deadline. `None` means the timer has never been armed
/// (or conceptually, that its window is long past).
#[derive(Clone, Copy, Debug)]
pub struct DebounceTimer {
    pub deadline: Option<u64>,
}

impl DebounceTimer {
    /// A freshly created timer is unarmed and never blocks a read.
    pub fn new() -> (t: DebounceTimer)
        ensures
            t.deadline is None,
    {
        DebounceTimer { deadline: None }
    }

    pub open spec fn armed(self) -> bool {
        self.deadline is Some
    }

    /// The window has passed: an unarmed timer is always expired.
    pub open spec fn spec_expired(self, now: u64) -> bool {
        match self.deadline {
            None => true,
            Some(d) => now >= d,
        }
    }

    /// Arm (or rearm) the countdown to `now + cooldown`, discarding any
    /// previous deadline.
    pub fn rearm(&mut self, now: u64, cooldown: u64)
        requires
            now + cooldown <= u64::MAX,
        ensures
            final(self).deadline == Some((now + cooldown) as u64),
    {
        self.deadline = Some(now + cooldown);
    }

    /// Poll the countdown.
    pub fn expired(&self, now: u64) -> (r: bool)
        ensures
            r == self.spec_expired(now),
    {
        match self.deadline {
            None => true,
            Some(d) => now >= d,
        }
    }

    /// How long a caller must still wait before the window is over: zero
    /// when unarmed or already expired, the exact distance to the deadline
    /// otherwise.
    pub fn remaining(&self, now: u64) -> (r: u64)
        ensures
            self.spec_expired(now) ==> r == 0,
            !self.spec_expired(now) ==> r == self.deadline->Some_0 - now,
    {
        match self.deadline {
            None => 0,
            Some(d) => {
                if now >= d {
                    0
                } else {
                    d - now
                }
            },
        }
    }
}

} // verus!
