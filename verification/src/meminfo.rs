//! A snapshot of the memory of the machine, or of the control group that
//! the process runs in.

use crate::cgroup::CGroupMemory;
use vstd::prelude::*;

verus! {

/// How much memory there is and how much of it can still be had, in bytes.
#[derive(Clone, Copy, Debug, PartialEq, Eq, Structural)]
pub struct MemInfo {
    /// The bytes that can be allocated without swapping.
    pub available: usize,
    /// The bytes of memory in all.
    pub total: usize,
}

impl MemInfo {
    /// Whether no more is available than there is.
    pub open spec fn consistent(self) -> bool {
        self.available <= self.total
    }

    /// The snapshot that the accounting of a control group makes on a
    /// machine with `system_total` bytes of memory.
    pub open spec fn of_cgroup(cgroup: CGroupMemory, system_total: usize) -> MemInfo {
        let total = if cgroup.unlimited {
            system_total
        } else {
            cgroup.limit
        };
        let available = if cgroup.usage <= total {
            (total - cgroup.usage) as usize
        } else {
            0
        };
        MemInfo { available, total }
    }

    /// The snapshot that the accounting of a control group makes on a
    /// machine with `system_total` bytes of memory. The total is the group's
    /// limit, or all the memory of the machine where the group has no limit.
    /// Available is what the usage leaves of the total, and nothing where the
    /// usage is beyond it.
    pub fn from_cgroup(cgroup: &CGroupMemory, system_total: usize) -> (info: MemInfo)
        ensures
            info == MemInfo::of_cgroup(*cgroup, system_total),
            info.consistent(),
            cgroup.unlimited ==> info.total == system_total,
            cgroup.usage <= info.total ==> info.available == info.total - cgroup.usage,
    {
        let total: usize = if cgroup.unlimited {
            system_total
        } else {
            cgroup.limit
        };
        let available: usize = if cgroup.usage <= total {
            total - cgroup.usage
        } else {
            0
        };
        MemInfo { available, total }
    }

    /// The snapshot that the system's own figures make: its total and its
    /// estimate of what is available. Without the estimate there is no
    /// snapshot.
    pub fn from_system(total: usize, available: Option<usize>) -> (info: Option<MemInfo>)
        ensures
            info == match available {
                Some(bytes) => Some(MemInfo { available: bytes, total }),
                None => None,
            },
    {
        match available {
            Some(bytes) => Some(MemInfo { available: bytes, total }),
            None => None,
        }
    }
}

} // verus!
