//! The syscalls that the task manager serves, and their numbers.

pub mod laws;
pub mod process;

use vstd::prelude::*;

verus! {

/// Syscall number of `exit`.
pub const SYSCALL_EXIT: usize = 93;

/// Syscall number of `yield`.
pub const SYSCALL_YIELD: usize = 124;

/// Syscall number of `set_priority`.
pub const SYSCALL_SET_PRIORITY: usize = 140;

/// Syscall number of `get_time`.
pub const SYSCALL_GET_TIME: usize = 169;

/// Syscall number of `munmap`.
pub const SYSCALL_MUNMAP: usize = 215;

/// Syscall number of `mmap`.
pub const SYSCALL_MMAP: usize = 222;

/// Syscall number of `task_info`.
pub const SYSCALL_TASK_INFO: usize = 410;

} // verus!
