//! The cadence of the control loop, and the standing that the process asks
//! of the out-of-memory killer.

use nix::unistd::Uid;
use vstd::prelude::*;

verus! {

/// The pause between two updates, in nanoseconds.
pub const TICK_NANOS: u64 = 50_000_000;

/// The least time between two status lines, in nanoseconds.
pub const STATUS_INTERVAL_NANOS: u64 = 5_000_000_000;

/// The score adjustment that exempts a process from the out-of-memory
/// killer.
pub const OOM_SCORE_EXEMPT: i32 = -1000;

/// The score adjustment of an ordinary process.
pub const OOM_SCORE_NEUTRAL: i32 = 0;

/// The sum of two times, or the largest time where the sum is beyond it.
pub open spec fn later(at: u64, by: u64) -> u64 {
    if at + by <= u64::MAX {
        (at + by) as u64
    } else {
        u64::MAX
    }
}

/// The score adjustment for a process that is privileged or is not.
pub open spec fn oom_score_for(privileged: bool) -> i32 {
    if privileged {
        OOM_SCORE_EXEMPT
    } else {
        OOM_SCORE_NEUTRAL
    }
}

/// Whether a process with these user ids is privileged: one of them is the
/// superuser's.
pub open spec fn privileged(real_uid: u32, effective_uid: u32) -> bool {
    real_uid == 0 || effective_uid == 0
}

/// The real user id of the process, from `nix::unistd::Uid::current`. It is
/// the process's own, so nothing is claimed of it.
#[verifier::external_body]
fn real_uid() -> (uid: u32) {
    Uid::current().as_raw()
}

/// The effective user id of the process, from `nix::unistd::Uid::effective`.
/// It is the process's own, so nothing is claimed of it.
#[verifier::external_body]
fn effective_uid() -> (uid: u32) {
    Uid::effective().as_raw()
}

/// The score adjustment to ask for with these user ids: exemption for a
/// privileged process, none for any other.
pub fn oom_score_adj(real_uid: u32, effective_uid: u32) -> (score: i32)
    ensures
        score == oom_score_for(privileged(real_uid, effective_uid)),
{
    if real_uid == 0 || effective_uid == 0 {
        OOM_SCORE_EXEMPT
    } else {
        OOM_SCORE_NEUTRAL
    }
}

/// The score adjustment that this process is to ask for.
pub fn adjust_oom_score() -> (score: i32)
    ensures
        score == OOM_SCORE_EXEMPT || score == OOM_SCORE_NEUTRAL,
{
    oom_score_adj(real_uid(), effective_uid())
}

/// The clock of the control loop: when to stop, and when the next status
/// line is due.
pub struct ControlLoop {
    deadline: u64,
    status_after: u64,
}

impl ControlLoop {
    /// The time at which the loop ends.
    pub closed spec fn deadline(&self) -> u64 {
        self.deadline
    }

    /// The time after which the next status line is due.
    pub closed spec fn status_after(&self) -> u64 {
        self.status_after
    }

    /// The clock of a loop that starts at `start` and runs for `duration`.
    /// The first status line is due as soon as time has passed.
    pub fn new(start: u64, duration: u64) -> (clock: ControlLoop)
        ensures
            clock.deadline() == later(start, duration),
            clock.status_after() == start,
    {
        let deadline: u64 = if duration <= u64::MAX - start {
            start + duration
        } else {
            u64::MAX
        };
        ControlLoop { deadline, status_after: start }
    }

    /// Whether the loop goes on at time `now`: the deadline is still ahead.
    pub fn running(&self, now: u64) -> (on: bool)
        ensures
            on == (now < self.deadline()),
    {
        now < self.deadline
    }

    /// Whether a status line is due at time `now`. When it is, the next one
    /// is due more than five seconds later.
    pub fn status_due(&mut self, now: u64) -> (due: bool)
        ensures
            due == (now > old(self).status_after()),
            final(self).deadline() == old(self).deadline(),
            final(self).status_after() == if due {
                later(now, STATUS_INTERVAL_NANOS)
            } else {
                old(self).status_after()
            },
    {
        if now > self.status_after {
            self.status_after = if now <= u64::MAX - STATUS_INTERVAL_NANOS {
                now + STATUS_INTERVAL_NANOS
            } else {
                u64::MAX
            };
            true
        } else {
            false
        }
    }
}

} // verus!
