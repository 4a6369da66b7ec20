//! Process management syscalls.
//!
//! Each function decides what a syscall does to the task manager and what
//! it returns.  Two things are left to the caller: carrying out a
//! [`Switch`], and storing a [`UserWrite`] in the calling program's
//! memory, at the place that its address is translated to.

use crate::config::{MAX_SYSCALL_NUM, PAGE_SIZE};
use crate::mm::address::VirtAddr;
use crate::mm::memory_set::{spec_mmap, spec_mmap_result, spec_unmap, spec_unmap_result, valid_port};
use crate::task::model::{elapsed_ms, ManagerView};
use crate::task::task::TaskStatus;
use crate::task::{
    current_user_token, exit_current_and_run_next, get_syscall_record, get_time_interval, mmap,
    suspend_current_and_run_next, unmap, Switch, TaskManager,
};
use vstd::prelude::*;

verus! {

/// A time as whole seconds and the microseconds beyond them.
#[derive(Copy, Clone, PartialEq, Eq, Structural, Debug)]
pub struct TimeVal {
    pub sec: usize,
    pub usec: usize,
}

/// What the task-info query reports about the calling task.
#[derive(Copy, Clone)]
pub struct TaskInfo {
    /// Status of the task, `Running` whenever it can ask.
    pub status: TaskStatus,
    /// How often the task has invoked each syscall.
    pub syscall_times: [u32; MAX_SYSCALL_NUM],
    /// Milliseconds since the task manager was made.
    pub time: usize,
}

/// A value that a syscall hands to the calling program: `value` is to be
/// stored where the user address `user_addr` points in the address space
/// named by `token`.
pub struct UserWrite<T> {
    pub token: usize,
    pub user_addr: usize,
    pub value: T,
}

/// The time `us` microseconds as seconds and microseconds.
pub open spec fn spec_time_val(us: usize) -> TimeVal {
    TimeVal { sec: us / 1_000_000, usec: us % 1_000_000 }
}

/// What `sys_mmap` checks before it touches the address space: the port
/// is valid, the start is page-aligned, and the length is positive.
pub open spec fn mmap_request_ok(start: usize, len: usize, port: usize) -> bool {
    valid_port(port) && start % PAGE_SIZE == 0 && len > 0
}

/// What `sys_munmap` checks before it touches the address space: the
/// start is page-aligned, and the length is positive.
pub open spec fn munmap_request_ok(start: usize, len: usize) -> bool {
    start % PAGE_SIZE == 0 && len > 0
}

/// What `sys_mmap` returns in state `v`.
pub open spec fn spec_sys_mmap_result(
    v: ManagerView,
    start: usize,
    len: usize,
    port: usize,
) -> isize {
    if mmap_request_ok(start, len, port) {
        spec_mmap_result(v.current_task().space, VirtAddr(start), VirtAddr((start + len) as usize))
    } else {
        -1isize
    }
}

/// The state that `sys_mmap` leaves when called in state `v`.
pub open spec fn spec_sys_mmap(
    v: ManagerView,
    start: usize,
    len: usize,
    port: usize,
) -> ManagerView {
    if mmap_request_ok(start, len, port) {
        v.with_current_space(
            spec_mmap(
                v.current_task().space,
                VirtAddr(start),
                VirtAddr((start + len) as usize),
                port,
            ),
        )
    } else {
        v
    }
}

/// What `sys_munmap` returns in state `v`.
pub open spec fn spec_sys_munmap_result(v: ManagerView, start: usize, len: usize) -> isize {
    if munmap_request_ok(start, len) {
        spec_unmap_result(v.current_task().space, VirtAddr(start), VirtAddr((start + len) as usize))
    } else {
        -1isize
    }
}

/// The state that `sys_munmap` leaves when called in state `v`.
pub open spec fn spec_sys_munmap(v: ManagerView, start: usize, len: usize) -> ManagerView {
    if munmap_request_ok(start, len) {
        v.with_current_space(
            spec_unmap(v.current_task().space, VirtAddr(start), VirtAddr((start + len) as usize)),
        )
    } else {
        v
    }
}

/// Ends the calling task and gives the CPU to the next ready one; `None`
/// says that no task is left to run.
pub fn sys_exit(manager: &mut TaskManager, exit_code: i32) -> (r: Option<Switch>)
    requires
        old(manager).wf(),
    ensures
        final(manager).wf(),
        final(manager)@ == old(manager)@.exit_now(),
        match r {
            Some(switch) => switch.from == old(manager)@.current
                && switch.to == final(manager)@.current
                && old(manager)@.exit_current().next_ready() == Some(switch.to as int),
            None => !old(manager)@.exit_current().has_ready()
                && final(manager)@ == old(manager)@.exit_current(),
        },
        old(manager)@.scheduled() ==> final(manager)@.scheduled(),
{
    exit_current_and_run_next(manager)
}

/// The calling task gives up the CPU for other tasks.  Returns 0, which
/// the task sees when it runs again, and the switch to carry out.
pub fn sys_yield(manager: &mut TaskManager) -> (r: (isize, Switch))
    requires
        old(manager).wf(),
    ensures
        r.0 == 0,
        final(manager).wf(),
        final(manager)@ == old(manager)@.yield_now(),
        r.1.from == old(manager)@.current,
        r.1.to == final(manager)@.current,
        old(manager)@.suspend_current().next_ready() == Some(r.1.to as int),
        old(manager)@.scheduled() ==> final(manager)@.one_running(),
{
    let switch = suspend_current_and_run_next(manager);
    (0, switch)
}

/// Reports the time `now_us`, given in microseconds, as seconds and
/// microseconds, to be stored at the user address `ts`.
pub fn sys_get_time(manager: &TaskManager, now_us: usize, ts: usize, _tz: usize) -> (r: (
    isize,
    UserWrite<TimeVal>,
))
    requires
        manager.wf(),
    ensures
        r.0 == 0,
        r.1.token == manager@.current_task().token,
        r.1.user_addr == ts,
        r.1.value == spec_time_val(now_us),
{
    let us = now_us;
    let value = TimeVal { sec: us / 1_000_000, usec: us % 1_000_000 };
    (0, UserWrite { token: current_user_token(manager), user_addr: ts, value })
}

/// Priorities are not supported: every request is turned down with -1.
pub fn sys_set_priority(_prio: isize) -> (r: isize)
    ensures
        r == -1,
{
    -1
}

/// Whether `port` has no bit outside the low three and at least one of
/// those three set.
pub fn check_mmap_port(port: usize) -> (r: bool)
    ensures
        r == valid_port(port),
{
    assert((port & !0x07usize != 0 || port & 0x7 == 0) <==> !(1 <= port <= 7)) by (bit_vector);
    if (port & (!0x07) != 0) || (port & 0x7 == 0) {
        return false;
    }
    true
}

/// Maps `len` bytes from address `start` on in the calling task's address
/// space, with the access rights that `port` asks for.
///
/// Returns -1 and changes nothing when the port is not valid, when
/// `start` is not page-aligned, when `len` is zero, or when one of the
/// pages is mapped already; returns 0 when the pages were mapped.
pub fn sys_mmap(manager: &mut TaskManager, start: usize, len: usize, port: usize) -> (r: isize)
    requires
        old(manager).wf(),
        mmap_request_ok(start, len, port) ==> start + len <= usize::MAX,
    ensures
        final(manager).wf(),
        r == spec_sys_mmap_result(old(manager)@, start, len, port),
        final(manager)@ == spec_sys_mmap(old(manager)@, start, len, port),
        r == 0 || r == -1,
        r == -1 ==> final(manager)@ == old(manager)@,
        !mmap_request_ok(start, len, port) ==> r == -1 && *final(manager) == *old(manager),
        old(manager)@.scheduled() ==> final(manager)@.scheduled(),
{
    if check_mmap_port(port) == false {
        return -1;
    }
    let virt_start = VirtAddr::from(start);
    if virt_start.page_offset() != 0 {
        return -1;
    }
    if len <= 0 {
        return -1;
    }
    let virt_end = VirtAddr::from(start + len);
    let r = mmap(manager, virt_start, virt_end, port);
    proof {
        if r == -1 {
            assert(manager@.tasks =~= old(manager)@.tasks);
        }
    }
    r
}

/// Unmaps `len` bytes from address `start` on in the calling task's
/// address space.
///
/// Returns -1 and changes nothing when `start` is not page-aligned, when
/// `len` is zero, or when one of the pages is not mapped; returns 0 when
/// the pages were unmapped.
pub fn sys_munmap(manager: &mut TaskManager, start: usize, len: usize) -> (r: isize)
    requires
        old(manager).wf(),
        munmap_request_ok(start, len) ==> start + len <= usize::MAX,
    ensures
        final(manager).wf(),
        r == spec_sys_munmap_result(old(manager)@, start, len),
        final(manager)@ == spec_sys_munmap(old(manager)@, start, len),
        r == 0 || r == -1,
        r == -1 ==> final(manager)@ == old(manager)@,
        !munmap_request_ok(start, len) ==> r == -1 && *final(manager) == *old(manager),
        old(manager)@.scheduled() ==> final(manager)@.scheduled(),
{
    let virt_start = VirtAddr::from(start);
    if virt_start.page_offset() != 0 {
        return -1;
    }
    if len <= 0 {
        return -1;
    }
    let virt_end = VirtAddr::from(start + len);
    let r = unmap(manager, virt_start, virt_end);
    proof {
        if r == -1 {
            assert(manager@.tasks =~= old(manager)@.tasks);
        }
    }
    r
}

/// Reports on the calling task at time `now_us`: its status, which is
/// `Running`, its syscall counters, and the milliseconds since the task
/// manager was made.  The report is to be stored at the user address `ti`.
pub fn sys_task_info(manager: &TaskManager, now_us: usize, ti: usize) -> (r: (
    isize,
    UserWrite<TaskInfo>,
))
    requires
        manager.wf(),
        manager@.init_time <= now_us / 1000,
    ensures
        r.0 == 0,
        r.1.token == manager@.current_task().token,
        r.1.user_addr == ti,
        r.1.value.status == TaskStatus::Running,
        r.1.value.syscall_times@ == manager@.current_task().syscalls,
        r.1.value.time == elapsed_ms(manager@.init_time, now_us as int),
{
    let record = get_syscall_record(manager);
    let mut syscall_times: [u32; MAX_SYSCALL_NUM] = [0u32;MAX_SYSCALL_NUM];
    let mut i: usize = 0;
    while i < MAX_SYSCALL_NUM
        invariant
            0 <= i <= MAX_SYSCALL_NUM,
            record@.len() == MAX_SYSCALL_NUM,
            forall|j: int| 0 <= j < i ==> syscall_times@[j] == record@[j],
        decreases MAX_SYSCALL_NUM - i,
    {
        syscall_times[i] = record[i];
        i += 1;
    }
    assert(syscall_times@ =~= record@);
    let value = TaskInfo {
        status: TaskStatus::Running,
        syscall_times,
        time: get_time_interval(manager, now_us),
    };
    (0, UserWrite { token: current_user_token(manager), user_addr: ti, value })
}

} // verus!
