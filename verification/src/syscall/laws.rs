//! What holds of the syscalls in every state: mapping and then unmapping a
//! range restores the address space, a range that touches a mapped one is
//! turned down, and every yield of a task is counted once.

use crate::config::PAGE_SIZE;
use crate::mm::address::VirtAddr;
use crate::syscall::process::{
    mmap_request_ok, spec_sys_mmap, spec_sys_mmap_result, spec_sys_munmap, spec_sys_munmap_result,
};
use crate::syscall::SYSCALL_YIELD;
use crate::task::laws::{lemma_count_syscall, lemma_rescheduling_keeps_counters};
use crate::task::model::ManagerView;
use vstd::prelude::*;

verus! {

/// Round trip: where `sys_mmap` of a range succeeds, `sys_munmap` of the
/// same range succeeds too and gives back the state from before, in which
/// the same `sys_mmap` succeeds again.
pub proof fn lemma_mmap_munmap_round_trip(v: ManagerView, start: usize, len: usize, port: usize)
    requires
        v.wf(),
        start + len <= usize::MAX,
        spec_sys_mmap_result(v, start, len, port) == 0,
    ensures
        spec_sys_munmap_result(spec_sys_mmap(v, start, len, port), start, len) == 0,
        spec_sys_munmap(spec_sys_mmap(v, start, len, port), start, len) == v,
        spec_sys_mmap_result(
            spec_sys_munmap(spec_sys_mmap(v, start, len, port), start, len),
            start,
            len,
            port,
        ) == 0,
{
    let mapped = spec_sys_mmap(v, start, len, port);
    let back = spec_sys_munmap(mapped, start, len);
    assert(back.current_task().space =~= v.current_task().space);
    assert(back.tasks =~= v.tasks);
}

/// Overlap: after a successful `sys_mmap`, a `sys_mmap` of any range that
/// shares a byte with the mapped one returns -1 and changes nothing.
pub proof fn lemma_mmap_rejects_overlap(
    v: ManagerView,
    start: usize,
    len: usize,
    port: usize,
    start2: usize,
    len2: usize,
    port2: usize,
)
    requires
        v.wf(),
        start + len <= usize::MAX,
        start2 + len2 <= usize::MAX,
        spec_sys_mmap_result(v, start, len, port) == 0,
        start < start2 + len2,
        start2 < start + len,
    ensures
        spec_sys_mmap_result(spec_sys_mmap(v, start, len, port), start2, len2, port2) == -1,
        spec_sys_mmap(spec_sys_mmap(v, start, len, port), start2, len2, port2) == spec_sys_mmap(
            v,
            start,
            len,
            port,
        ),
{
    let mapped = spec_sys_mmap(v, start, len, port);
    if mmap_request_ok(start2, len2, port2) {
        let byte: int = if start < start2 {
            start2 as int
        } else {
            start as int
        };
        let page = byte / (PAGE_SIZE as int);
        assert(VirtAddr(start).spec_floor() <= page < VirtAddr((start + len) as usize).spec_ceil());
        assert(VirtAddr(start2).spec_floor() <= page < VirtAddr(
            (start2 + len2) as usize,
        ).spec_ceil());
        assert(mapped.current_task().space.dom().contains(page));
        assert(spec_sys_mmap(mapped, start2, len2, port2).tasks =~= mapped.tasks);
    }
}

/// Overlap, in the smallest case: after two pages were mapped at a
/// page-aligned `start`, mapping the second of them again returns -1.
pub proof fn lemma_mmap_rejects_second_page(v: ManagerView, start: usize, port: usize, port2: usize)
    requires
        v.wf(),
        start + 2 * PAGE_SIZE <= usize::MAX,
        spec_sys_mmap_result(v, start, (2 * PAGE_SIZE) as usize, port) == 0,
    ensures
        spec_sys_mmap_result(
            spec_sys_mmap(v, start, (2 * PAGE_SIZE) as usize, port),
            (start + PAGE_SIZE) as usize,
            PAGE_SIZE,
            port2,
        ) == -1,
{
    lemma_mmap_rejects_overlap(
        v,
        start,
        (2 * PAGE_SIZE) as usize,
        port,
        (start + PAGE_SIZE) as usize,
        PAGE_SIZE,
        port2,
    );
}

/// Unmapping fails on a range of which some page is not mapped, as
/// right after the range was unmapped.
pub proof fn lemma_munmap_twice_fails(v: ManagerView, start: usize, len: usize)
    requires
        v.wf(),
        start + len <= usize::MAX,
        spec_sys_munmap_result(v, start, len) == 0,
    ensures
        spec_sys_munmap_result(spec_sys_munmap(v, start, len), start, len) == -1,
{
    let unmapped = spec_sys_munmap(v, start, len);
    let page = start as int / (PAGE_SIZE as int);
    assert(VirtAddr(start).spec_floor() <= page < VirtAddr((start + len) as usize).spec_ceil());
    assert(!unmapped.current_task().space.dom().contains(page));
}

/// The state after the current task made `k` yield syscalls in a row,
/// each counted before it was served.
pub open spec fn after_counted_yields(v: ManagerView, k: nat) -> ManagerView
    decreases k,
{
    if k == 0 {
        v
    } else {
        after_counted_yields(v, (k - 1) as nat).count_syscall(SYSCALL_YIELD as int).yield_now()
    }
}

/// Counting of yields: a task that runs alone and yields `k` times finds
/// its yield counter `k` higher and every other counter as it was.
pub proof fn lemma_counted_yields(v: ManagerView, k: nat)
    requires
        v.wf(),
        v.len() == 1,
        v.current_task().syscalls[SYSCALL_YIELD as int] + k <= u32::MAX,
    ensures
        after_counted_yields(v, k).wf(),
        after_counted_yields(v, k).len() == 1,
        after_counted_yields(v, k).current_task().syscalls == v.current_task().syscalls.update(
            SYSCALL_YIELD as int,
            (v.current_task().syscalls[SYSCALL_YIELD as int] + k) as u32,
        ),
    decreases k,
{
    let id = SYSCALL_YIELD as int;
    let before = v.current_task().syscalls;
    if k == 0 {
        assert(before =~= before.update(id, before[id]));
    } else {
        let u = after_counted_yields(v, (k - 1) as nat);
        lemma_counted_yields(v, (k - 1) as nat);
        lemma_count_syscall(u, id);
        let counted = u.count_syscall(id);
        lemma_rescheduling_keeps_counters(counted);
        let w = counted.yield_now();
        assert(w.current == 0 && counted.current == 0);
        assert(w.current_task().syscalls =~= before.update(id, (before[id] + k) as u32));
    }
}

} // verus!
