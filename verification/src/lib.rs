//! Process-management core of a small teaching kernel: a round-robin
//! scheduler over a fixed set of tasks, each task's address-space mapping
//! table, and the per-task accounting behind the introspection syscalls.

pub mod config;
pub mod mm;
pub mod task;
pub mod syscall;
