//! What holds of the scheduler in every state: the rotation is fair, one
//! task runs at a time, the last exit leaves nothing to run, counting a
//! syscall touches one counter, and elapsed time never runs backwards.

use crate::config::MAX_SYSCALL_NUM;
use crate::task::boot_view;
use crate::task::model::{
    elapsed_ms, lemma_next_ready, lemma_slot_offset, lemma_slot_step, lemma_slot_value,
    ManagerView,
};
use crate::task::task::{AppImage, TaskStatus, TaskView};
use vstd::prelude::*;

verus! {

/// A manager that was just made holds only `Ready` tasks, so nothing runs
/// yet; once its first task is started, all tasks take part in the
/// rotation.
pub proof fn lemma_boot_then_start(images: Seq<AppImage>, trap_return: usize, now_us: usize)
    requires
        images.len() > 0,
    ensures
        boot_view(images, trap_return, now_us).wf(),
        boot_view(images, trap_return, now_us).len() == images.len(),
        boot_view(images, trap_return, now_us).none_running(),
        forall|i: int|
            0 <= i < images.len() ==> #[trigger] boot_view(images, trap_return, now_us).status(i)
                == TaskStatus::Ready,
        boot_view(images, trap_return, now_us).start_first().all_alive(),
        boot_view(images, trap_return, now_us).start_first().one_running(),
{
    let v = boot_view(images, trap_return, now_us);
    assert(v.running_tasks() =~= Set::<int>::empty());
    lemma_start_first_schedules(v);
}

/// Where the current task alone is `Running`, exactly one task is.
pub proof fn lemma_one_running_is_one(v: ManagerView)
    requires
        v.one_running(),
    ensures
        v.running_tasks().finite(),
        v.running_tasks().len() == 1,
        v.running_tasks().contains(v.current),
{
    assert(set![v.current].len() == 1) by {
        assert(set![v.current] =~= Set::<int>::empty().insert(v.current));
    }
}

/// Starting the first task from a state in which nothing runs makes it
/// the one running task.
pub proof fn lemma_start_first_schedules(v: ManagerView)
    requires
        v.wf(),
        v.current == 0,
        v.none_running(),
    ensures
        v.start_first().wf(),
        v.start_first().one_running(),
        v.start_first().scheduled(),
{
    let w = v.start_first();
    assert forall|i: int| w.running_tasks().contains(i) <==> i == w.current by {
        if 0 <= i < v.len() && i != 0 {
            assert(!v.running_tasks().contains(i));
        }
    }
    assert(w.running_tasks() =~= set![w.current]);
}

/// A yield keeps the scheduling invariant, and afterwards exactly the
/// new current task is `Running`.
pub proof fn lemma_yield_keeps_schedule(v: ManagerView)
    requires
        v.wf(),
        v.scheduled(),
    ensures
        v.yield_now().wf(),
        v.yield_now().len() == v.len(),
        v.yield_now().one_running(),
        v.yield_now().scheduled(),
{
    let s = v.suspend_current();
    assert(s.status(s.current) == TaskStatus::Ready);
    lemma_next_ready(s);
    let next = s.next_ready().unwrap();
    let w = v.yield_now();
    assert(w == s.dispatch(next));
    lemma_none_running_after_leaving(v, TaskStatus::Ready);
    assert forall|i: int| w.running_tasks().contains(i) <==> i == w.current by {
        if 0 <= i < v.len() && i != next {
            assert(!s.running_tasks().contains(i));
        }
    }
    assert(w.running_tasks() =~= set![w.current]);
}

/// An exit keeps the scheduling invariant: either another task becomes
/// the one running task, or no task is left that has not finished.
pub proof fn lemma_exit_keeps_schedule(v: ManagerView)
    requires
        v.wf(),
        v.scheduled(),
    ensures
        v.exit_now().wf(),
        v.exit_now().len() == v.len(),
        v.exit_now().scheduled(),
        v.exit_current().has_ready() ==> v.exit_now().one_running(),
        !v.exit_current().has_ready() ==> !v.exit_now().has_unfinished(),
{
    let s = v.exit_current();
    lemma_next_ready(s);
    lemma_none_running_after_leaving(v, TaskStatus::Exited);
    let w = v.exit_now();
    match s.next_ready() {
        Some(next) => {
            assert forall|i: int| w.running_tasks().contains(i) <==> i == w.current by {
                if 0 <= i < v.len() && i != next {
                    assert(!s.running_tasks().contains(i));
                }
            }
            assert(w.running_tasks() =~= set![w.current]);
        },
        None => {
            assert forall|i: int| 0 <= i < w.len() implies !(#[trigger] w.status(i)
                == TaskStatus::Ready || w.status(i) == TaskStatus::Running) by {
                assert(!s.running_tasks().contains(i));
            }
        },
    }
}

/// Once the current task of a scheduled state has left the `Running`
/// status, no task is `Running`.
proof fn lemma_none_running_after_leaving(v: ManagerView, status: TaskStatus)
    requires
        v.wf(),
        v.scheduled(),
        status != TaskStatus::Running,
    ensures
        v.with_status(v.current, status).none_running(),
{
    let s = v.with_status(v.current, status);
    assert forall|i: int| !s.running_tasks().contains(i) by {
        if 0 <= i < v.len() && i != v.current && v.status(i) == TaskStatus::Running {
            assert(v.has_unfinished());
            assert(v.running_tasks().contains(i));
        }
    }
    assert(s.running_tasks() =~= Set::<int>::empty());
}

/// Replacing the current task by one of the same status, as counting a
/// syscall and mapping or unmapping memory do, keeps the scheduling
/// invariant.
pub proof fn lemma_bookkeeping_keeps_schedule(v: ManagerView, task: TaskView)
    requires
        v.wf(),
        v.scheduled(),
        task.status == v.current_task().status,
    ensures
        v.with_task(v.current, task).scheduled(),
{
    let w = v.with_task(v.current, task);
    assert forall|i: int| 0 <= i < v.len() implies w.status(i) == v.status(i) by {}
    if w.has_unfinished() {
        let i = choose|i: int|
            0 <= i < w.len() && (#[trigger] w.status(i) == TaskStatus::Ready || w.status(i)
                == TaskStatus::Running);
        assert(v.status(i) == w.status(i));
        assert(v.has_unfinished());
        assert(w.running_tasks() =~= v.running_tasks());
    }
}

/// One yield among tasks that all take part in the rotation hands the CPU
/// to the next task in cyclic order, and all still take part afterwards.
pub proof fn lemma_yield_rotates(v: ManagerView)
    requires
        v.wf(),
        v.all_alive(),
    ensures
        v.yield_now().wf(),
        v.yield_now().len() == v.len(),
        v.yield_now().all_alive(),
        v.yield_now().current == v.slot(1),
{
    let s = v.suspend_current();
    lemma_slot_step(v, 1);
    assert(s.slot(1) == v.slot(1));
    assert(s.status(s.slot(1)) == TaskStatus::Ready) by {
        if v.slot(1) != v.current {
            assert(v.status(v.slot(1)) == TaskStatus::Ready);
        }
    }
    assert(s.next_ready() == Some(v.slot(1)));
    let w = v.yield_now();
    assert forall|i: int| 0 <= i < w.len() implies #[trigger] w.status(i) == if i == w.current {
        TaskStatus::Running
    } else {
        TaskStatus::Ready
    } by {
        if i != v.current && i != w.current {
            assert(v.status(i) == TaskStatus::Ready);
        }
    }
}

/// Round-robin rotation: after `k` yields in a row, among tasks that all
/// take part, the CPU is with the task `k` places after the first one,
/// wrapping round.
pub proof fn lemma_yields_rotate(v: ManagerView, k: nat)
    requires
        v.wf(),
        v.all_alive(),
    ensures
        v.after_yields(k).wf(),
        v.after_yields(k).len() == v.len(),
        v.after_yields(k).all_alive(),
        v.after_yields(k).current == v.slot(k as int),
    decreases k,
{
    if k == 0 {
        lemma_slot_value(v, 0);
    } else {
        let u = v.after_yields((k - 1) as nat);
        lemma_yields_rotate(v, (k - 1) as nat);
        lemma_yield_rotates(u);
        lemma_slot_step(v, k - 1);
        lemma_slot_step(u, 0);
        lemma_slot_value(u, 0);
    }
}

/// Round-robin fairness: with `n` tasks that all take part, `n` yields in
/// a row give the CPU to every task exactly once: no task gets it twice,
/// and none is left out.
pub proof fn lemma_round_robin_fairness(v: ManagerView)
    requires
        v.wf(),
        v.all_alive(),
    ensures
        forall|i: int, j: int|
            1 <= i < j <= v.len() ==> (#[trigger] v.after_yields(i as nat)).current != (
            #[trigger] v.after_yields(j as nat)).current,
        forall|t: int| 0 <= t < v.len() ==> #[trigger] v.runs_within_a_round(t),
{
    assert forall|i: int, j: int| 1 <= i < j <= v.len() implies (#[trigger] v.after_yields(
        i as nat,
    )).current != (#[trigger] v.after_yields(j as nat)).current by {
        lemma_yields_rotate(v, i as nat);
        lemma_yields_rotate(v, j as nat);
        lemma_slot_value(v, i);
        lemma_slot_value(v, j);
    }
    assert forall|t: int| 0 <= t < v.len() implies #[trigger] v.runs_within_a_round(t) by {
        lemma_slot_offset(v, t);
        let k = if t > v.current {
            t - v.current
        } else {
            t - v.current + v.len()
        };
        lemma_yields_rotate(v, k as nat);
        assert(v.after_yields(k as nat).current == t);
    }
}

/// Exhaustion: when the current task exits and no other task is `Ready`,
/// the reschedule finds nothing to run and changes nothing more.
pub proof fn lemma_last_exit_halts(v: ManagerView)
    requires
        v.wf(),
        forall|i: int| 0 <= i < v.len() && i != v.current ==> v.status(i) != TaskStatus::Ready,
    ensures
        !v.exit_current().has_ready(),
        v.exit_current().next_ready().is_none(),
        v.exit_now() == v.exit_current(),
{
    let s = v.exit_current();
    assert forall|i: int| 0 <= i < s.len() implies #[trigger] s.status(i) != TaskStatus::Ready by {
        if i != v.current {
            assert(v.status(i) != TaskStatus::Ready);
        }
    }
    lemma_next_ready(s);
}

/// Exhaustion of a single task: when the only task exits, the reschedule
/// finds nothing to run.
pub proof fn lemma_single_task_exit_halts(v: ManagerView)
    requires
        v.wf(),
        v.len() == 1,
    ensures
        v.exit_current().next_ready().is_none(),
        v.exit_now() == v.exit_current(),
{
    lemma_last_exit_halts(v);
}

/// Counting a syscall adds one to that counter of the current task and
/// changes no other counter, no other task and no status.
pub proof fn lemma_count_syscall(v: ManagerView, id: int)
    requires
        v.wf(),
        0 <= id < MAX_SYSCALL_NUM,
        v.current_task().syscalls[id] < u32::MAX,
    ensures
        v.count_syscall(id).wf(),
        v.count_syscall(id).current == v.current,
        v.count_syscall(id).len() == v.len(),
        v.count_syscall(id).current_task().syscalls[id] == v.current_task().syscalls[id] + 1,
        forall|j: int|
            0 <= j < MAX_SYSCALL_NUM && j != id ==> v.count_syscall(id).current_task().syscalls[j]
                == v.current_task().syscalls[j],
        forall|i: int|
            0 <= i < v.len() && i != v.current ==> v.count_syscall(id).tasks[i] == v.tasks[i],
        forall|i: int| 0 <= i < v.len() ==> v.count_syscall(id).status(i) == v.status(i),
{
}

/// Rescheduling, by a yield or by an exit, changes no syscall counter of
/// any task, and keeps the number of tasks.
pub proof fn lemma_rescheduling_keeps_counters(v: ManagerView)
    requires
        v.wf(),
    ensures
        v.yield_now().wf(),
        v.exit_now().wf(),
        v.yield_now().len() == v.len(),
        v.exit_now().len() == v.len(),
        forall|i: int| 0 <= i < v.len() ==> v.yield_now().tasks[i].syscalls == v.tasks[i].syscalls,
        forall|i: int| 0 <= i < v.len() ==> v.exit_now().tasks[i].syscalls == v.tasks[i].syscalls,
{
    lemma_next_ready(v.suspend_current());
    lemma_next_ready(v.exit_current());
}

/// `Exited` is final: when the running task yields or exits, every task
/// that had exited before is still `Exited` afterwards.
pub proof fn lemma_exited_is_final(v: ManagerView)
    requires
        v.wf(),
        v.status(v.current) == TaskStatus::Running,
    ensures
        forall|i: int|
            0 <= i < v.len() && v.status(i) == TaskStatus::Exited ==> v.yield_now().status(i)
                == TaskStatus::Exited,
        forall|i: int|
            0 <= i < v.len() && v.status(i) == TaskStatus::Exited ==> v.exit_now().status(i)
                == TaskStatus::Exited,
        v.exit_now().status(v.current) == TaskStatus::Exited,
{
    lemma_next_ready(v.suspend_current());
    lemma_next_ready(v.exit_current());
}

/// Elapsed time is monotonic: of two readings of a clock that does not
/// run backwards, the later one gives no smaller interval.
pub proof fn lemma_elapsed_monotonic(init_time: int, earlier_us: int, later_us: int)
    requires
        earlier_us <= later_us,
    ensures
        elapsed_ms(init_time, earlier_us) <= elapsed_ms(init_time, later_us),
{
}

} // verus!
