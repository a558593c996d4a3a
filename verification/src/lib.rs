//! Core of a memory-pressure generator: sizing a target against a memory
//! snapshot and steering a pool of memory-holding child processes toward it.

pub mod allocator;
pub mod cgroup;
pub mod cgroup_laws;
pub mod chunk;
pub mod control;
pub mod meminfo;
pub mod path;
pub mod pool;
pub mod pool_laws;
pub mod size;
pub mod text;
