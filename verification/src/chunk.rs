//! A chunk: one child process that holds one block of memory.
//!
//! The child is created by the program around this library. Here a chunk is
//! the record the parent keeps of it: the bytes it was asked to hold and the
//! child's process id, with `0` standing for "no child". Only an id above
//! zero names a child; a chunk with any other id has none. The parent reaps,
//! wakes and accounts for the child through the functions of this module.

use nix::errno::Errno;
use nix::sys::signal::{kill, Signal};
use nix::sys::wait::{waitpid, WaitPidFlag, WaitStatus};
use nix::unistd::Pid;
use vstd::prelude::*;

verus! {

/// The process id that stands for "no child".
pub const NO_CHILD: i32 = 0;

/// How long the parent waits for a fresh child to park, in nanoseconds.
pub const PARK_TIMEOUT_NANOS: u64 = 5_000_000_000;

/// The pause between two looks at a child that has not parked yet, in
/// nanoseconds.
pub const PARK_POLL_NANOS: u64 = 50_000_000;

/// What a wait on a child reported.
#[derive(Clone, Copy, Debug, PartialEq, Eq, Structural)]
pub enum WaitOutcome {
    /// The child `pid` exited with status `code`.
    Exited { pid: i32, code: i32 },
    /// The child `pid` was terminated by signal number `signal`.
    Signaled { pid: i32, signal: i32 },
    /// The child has not terminated.
    Unchanged,
    /// The system knows no such child.
    NoChild,
    /// The system call failed with error number `errno`.
    Failed { errno: i32 },
}

impl WaitOutcome {
    /// Whether the child is gone for good after this outcome.
    pub open spec fn ends_child(self) -> bool {
        !(self is Unchanged)
    }

    /// Whether the child is gone for good after this outcome.
    pub fn is_final(&self) -> (r: bool)
        ensures
            r == self.ends_child(),
    {
        match self {
            WaitOutcome::Unchanged => false,
            _ => true,
        }
    }
}

/// Waits on the child `pid` with `nix::sys::wait::waitpid`, without blocking
/// when `no_hang` is set, and reports the status as a [`WaitOutcome`]. The
/// outcome depends on the state of the process table, so nothing is claimed
/// of it. Without `no_hang` the call returns only once the child terminates.
/// Only an id above zero names one process; zero and the ids below it mean a
/// group of processes to the system, and are not handed over.
#[verifier::external_body]
fn wait_child(pid: i32, no_hang: bool) -> (outcome: WaitOutcome)
    requires
        pid > 0,
{
    match waitpid(Pid::from_raw(pid), no_hang.then_some(WaitPidFlag::WNOHANG)) {
        Ok(WaitStatus::Exited(child, code)) => WaitOutcome::Exited { pid: child.as_raw(), code },
        Ok(WaitStatus::Signaled(child, signal, _)) => {
            WaitOutcome::Signaled { pid: child.as_raw(), signal: signal as i32 }
        },
        Ok(_) => WaitOutcome::Unchanged,
        Err(Errno::ECHILD) => WaitOutcome::NoChild,
        Err(errno) => WaitOutcome::Failed { errno: errno as i32 },
    }
}

/// Sends `SIGCONT` to the process `pid` with `nix::sys::signal::kill`. The
/// error number is handed back when the signal could not be sent; whether it
/// can be sent depends on the process table, so nothing is claimed. Only an
/// id above zero names one process; zero and the ids below it mean a group
/// of processes to the system, and are not handed over.
#[verifier::external_body]
fn wake_child(pid: i32) -> (sent: Result<(), i32>)
    requires
        pid > 0,
{
    match kill(Pid::from_raw(pid), Signal::SIGCONT) {
        Ok(()) => Ok(()),
        Err(errno) => Err(errno as i32),
    }
}

/// One block of memory held by one child process.
#[derive(Clone, Copy, Debug, PartialEq, Eq, Structural)]
pub struct Chunk {
    /// The bytes the child was asked to hold.
    pub size: usize,
    /// The child's process id, or [`NO_CHILD`].
    pub pid: i32,
}

/// What was done to a chunk, for the record: the chunk as it was before, and
/// what the wait on its child reported (`None` when no wait was made).
#[derive(Clone, Copy, Debug, PartialEq, Eq, Structural)]
pub struct ChunkEvent {
    pub chunk: Chunk,
    pub outcome: Option<WaitOutcome>,
}

/// What to do with a child that was forked a moment ago.
#[derive(Clone, Copy, Debug, PartialEq, Eq, Structural)]
pub enum ParkDecision {
    /// The child sleeps on its memory: the chunk is live.
    Parked,
    /// Look again after [`PARK_POLL_NANOS`].
    Retry,
    /// The child did not park in time: the chunk did not take effect.
    GiveUp,
}

/// The time after which a child forked at `forked_at` is given up.
pub open spec fn park_deadline_of(forked_at: u64) -> u64 {
    if forked_at + PARK_TIMEOUT_NANOS <= u64::MAX {
        (forked_at + PARK_TIMEOUT_NANOS) as u64
    } else {
        u64::MAX
    }
}

/// The verdict on a child seen `sleeping` or not at time `now`.
pub open spec fn park_verdict(sleeping: bool, now: u64, deadline: u64) -> ParkDecision {
    if sleeping {
        ParkDecision::Parked
    } else if now > deadline {
        ParkDecision::GiveUp
    } else {
        ParkDecision::Retry
    }
}

/// Whether a request for `size` bytes calls for a child: one for no bytes
/// does not, and gives the inert chunk without a fork.
pub fn needs_child(size: usize) -> (r: bool)
    ensures
        r == (size > 0),
{
    size > 0
}

/// The time after which a child forked at `forked_at` is given up: five
/// seconds later.
pub fn park_deadline(forked_at: u64) -> (deadline: u64)
    ensures
        deadline == park_deadline_of(forked_at),
{
    if forked_at <= u64::MAX - PARK_TIMEOUT_NANOS {
        forked_at + PARK_TIMEOUT_NANOS
    } else {
        u64::MAX
    }
}

/// Decides on a child that was observed at time `now`: a sleeping child is
/// parked; any other observation is tried again until `deadline` has passed.
pub fn park_decision(sleeping: bool, now: u64, deadline: u64) -> (decision: ParkDecision)
    ensures
        decision == park_verdict(sleeping, now, deadline),
{
    if sleeping {
        ParkDecision::Parked
    } else if now > deadline {
        ParkDecision::GiveUp
    } else {
        ParkDecision::Retry
    }
}

impl Chunk {
    /// The chunk without a child.
    pub open spec fn inert() -> Chunk {
        Chunk { size: 0, pid: NO_CHILD }
    }

    /// Whether a child stands behind the chunk: its process id names one
    /// process.
    pub open spec fn live(self) -> bool {
        self.pid > NO_CHILD
    }

    /// The bytes the chunk accounts for: its size while the child lives.
    pub open spec fn held(self) -> nat {
        if self.live() {
            self.size as nat
        } else {
            0
        }
    }

    /// The chunk that a request for `size` bytes led to, where `child` is the
    /// parked child if there is one.
    pub open spec fn made(size: usize, child: Option<i32>) -> Chunk {
        match child {
            Some(pid) if size > 0 && pid > 0 => Chunk { size, pid },
            _ => Chunk::inert(),
        }
    }

    /// The chunk after a wait on its child reported `outcome`: a live chunk
    /// loses its child unless the child is unchanged; a chunk without a child
    /// stays as it is.
    pub open spec fn settled(self, outcome: WaitOutcome) -> Chunk {
        if self.live() && outcome.ends_child() {
            Chunk { size: self.size, pid: NO_CHILD }
        } else {
            self
        }
    }

    /// Records the result of a request for `size` bytes. `child` is the
    /// process id of the child that parked on the memory, or `None` where no
    /// child was forked or it did not park. A request for no bytes, and a
    /// process id that names no single process, give the inert chunk.
    pub fn new(size: usize, child: Option<i32>) -> (chunk: Chunk)
        ensures
            chunk == Chunk::made(size, child),
    {
        match child {
            Some(pid) => {
                if size > 0 && pid > 0 {
                    Chunk { size, pid }
                } else {
                    Chunk { size: 0, pid: NO_CHILD }
                }
            },
            None => Chunk { size: 0, pid: NO_CHILD },
        }
    }

    /// Whether a child stands behind the chunk.
    pub fn is_live(&self) -> (r: bool)
        ensures
            r == self.live(),
    {
        self.pid > NO_CHILD
    }

    /// The bytes the chunk accounts for: its size while the child lives, else
    /// nothing.
    pub fn size(&self) -> (bytes: usize)
        ensures
            bytes == self.held(),
    {
        if self.pid > NO_CHILD {
            self.size
        } else {
            0
        }
    }

    /// Takes note of what a wait on the child reported: unless the child is
    /// unchanged, the chunk loses it. A chunk without a child stays as it is.
    pub fn settle(&mut self, outcome: WaitOutcome)
        ensures
            *final(self) == old(self).settled(outcome),
    {
        if self.pid > NO_CHILD && outcome.is_final() {
            self.pid = NO_CHILD;
        }
    }

    /// Waits on the child, without blocking when `no_hang` is set, and takes
    /// note of the outcome, which is handed back. A chunk without a child has
    /// none to wait on: it is left as it is, and no system call is made.
    pub fn wait(&mut self, no_hang: bool) -> (outcome: WaitOutcome)
        ensures
            *final(self) == old(self).settled(outcome),
            !old(self).live() ==> outcome is NoChild,
    {
        if self.pid <= NO_CHILD {
            return WaitOutcome::NoChild;
        }
        let outcome = wait_child(self.pid, no_hang);
        self.settle(outcome);
        outcome
    }

    /// Reaps the child if it has terminated, without blocking.
    pub fn check(&mut self) -> (outcome: WaitOutcome)
        ensures
            *final(self) == old(self).settled(outcome),
            !old(self).live() ==> outcome is NoChild,
    {
        self.wait(true)
    }

    /// Releases the chunk: wakes the child, which then gives its memory back
    /// and exits, and reaps it. Returns the bytes that the chunk accounted
    /// for, and the event for the record. A chunk without a child is left as
    /// it is. A child that cannot be signalled is given up without a wait.
    pub fn free(&mut self) -> (r: (usize, ChunkEvent))
        ensures
            r.0 == old(self).held(),
            r.1.chunk == *old(self),
            !old(self).live() ==> r.1.outcome is None && *final(self) == *old(self),
            old(self).live() ==> r.1.outcome is Some && *final(self) == old(self).settled(
                r.1.outcome->0,
            ),
    {
        let before = *self;
        if self.pid > NO_CHILD {
            let outcome = match wake_child(self.pid) {
                Ok(()) => self.wait(false),
                Err(errno) => {
                    let failed = WaitOutcome::Failed { errno };
                    self.settle(failed);
                    failed
                },
            };
            (self.size, ChunkEvent { chunk: before, outcome: Some(outcome) })
        } else {
            (0, ChunkEvent { chunk: before, outcome: None })
        }
    }
}

} // verus!
