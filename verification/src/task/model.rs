//! The mathematical model of the scheduler: the tasks in their fixed
//! order, the index of the current one, and the transitions between such
//! states.

use crate::config::MAX_SYSCALL_NUM;
use crate::mm::memory_set::MapPermission;
use crate::task::task::{TaskStatus, TaskView};
use vstd::prelude::*;

verus! {

/// The state of the task manager.
pub struct ManagerView {
    /// The tasks, in the order in which they were loaded.
    pub tasks: Seq<TaskView>,
    /// Index of the task that holds the CPU.
    pub current: int,
    /// When the manager was made, in milliseconds.
    pub init_time: int,
}

/// Milliseconds from `init_time` (in milliseconds) to `now_us` (in
/// microseconds).
pub open spec fn elapsed_ms(init_time: int, now_us: int) -> int {
    now_us / 1000 - init_time
}

impl ManagerView {
    /// The current index names a task, and every task has one counter for
    /// each syscall number.
    pub open spec fn wf(self) -> bool {
        &&& 0 <= self.current < self.tasks.len()
        &&& forall|i: int|
            0 <= i < self.tasks.len() ==> (#[trigger] self.tasks[i]).syscalls.len()
                == MAX_SYSCALL_NUM
    }

    /// Number of tasks.
    pub open spec fn len(self) -> int {
        self.tasks.len() as int
    }

    /// The task that holds the CPU.
    pub open spec fn current_task(self) -> TaskView {
        self.tasks[self.current]
    }

    /// Status of task `i`.
    pub open spec fn status(self, i: int) -> TaskStatus {
        self.tasks[i].status
    }

    /// The same state with task `i` replaced by `task`.
    pub open spec fn with_task(self, i: int, task: TaskView) -> ManagerView {
        ManagerView { tasks: self.tasks.update(i, task), ..self }
    }

    /// The same state with the status of task `i` set to `status`.
    pub open spec fn with_status(self, i: int, status: TaskStatus) -> ManagerView {
        self.with_task(i, self.tasks[i].with_status(status))
    }

    /// The same state with the current task's address space replaced.
    pub open spec fn with_current_space(self, space: Map<int, MapPermission>) -> ManagerView {
        self.with_task(self.current, self.current_task().with_space(space))
    }

    /// The state after the current task invoked syscall `id` once more.
    pub open spec fn count_syscall(self, id: int) -> ManagerView {
        self.with_task(self.current, self.current_task().count_syscall(id))
    }

    /// The slot that lies `k` places after the current one, wrapping
    /// round at the end of the task list.
    pub open spec fn slot(self, k: int) -> int {
        (self.current + k) % self.len()
    }

    /// The first `Ready` slot among those that lie `k`, `k + 1`, ... and
    /// at most `len()` places after the current one.
    pub open spec fn scan_ready(self, k: int) -> Option<int>
        decreases self.len() + 1 - k,
    {
        if k < 1 || k > self.len() {
            None
        } else if self.status(self.slot(k)) == TaskStatus::Ready {
            Some(self.slot(k))
        } else {
            self.scan_ready(k + 1)
        }
    }

    /// The task to run next: the first `Ready` one in cyclic order after
    /// the current task, the current task itself coming last.
    pub open spec fn next_ready(self) -> Option<int> {
        self.scan_ready(1)
    }

    /// The state after the first task was started.
    pub open spec fn start_first(self) -> ManagerView {
        self.with_status(0, TaskStatus::Running)
    }

    /// The state after the current task was marked `Ready`.
    pub open spec fn suspend_current(self) -> ManagerView {
        self.with_status(self.current, TaskStatus::Ready)
    }

    /// The state after the current task was marked `Exited`.
    pub open spec fn exit_current(self) -> ManagerView {
        self.with_status(self.current, TaskStatus::Exited)
    }

    /// The state after the CPU was given to task `next`.
    pub open spec fn dispatch(self, next: int) -> ManagerView {
        ManagerView { current: next, ..self.with_status(next, TaskStatus::Running) }
    }

    /// The state after a reschedule: the next ready task runs, or, where
    /// no task is ready, nothing changes.
    pub open spec fn run_next(self) -> ManagerView {
        match self.next_ready() {
            Some(next) => self.dispatch(next),
            None => self,
        }
    }

    /// The state after the current task yielded the CPU.
    pub open spec fn yield_now(self) -> ManagerView {
        self.suspend_current().run_next()
    }

    /// The state after the current task exited.
    pub open spec fn exit_now(self) -> ManagerView {
        self.exit_current().run_next()
    }

    /// The state after `k` yields in a row.
    pub open spec fn after_yields(self, k: nat) -> ManagerView
        decreases k,
    {
        if k == 0 {
            self
        } else {
            self.after_yields((k - 1) as nat).yield_now()
        }
    }

    /// Task `t` holds the CPU after some number of yields in a row that is
    /// at least one and at most the number of tasks.
    pub open spec fn runs_within_a_round(self, t: int) -> bool {
        exists|k: int|
            1 <= k <= self.len() && (#[trigger] self.after_yields(k as nat)).current == t
    }

    /// Some task is `Ready`.
    pub open spec fn has_ready(self) -> bool {
        exists|i: int| 0 <= i < self.len() && #[trigger] self.status(i) == TaskStatus::Ready
    }

    /// Some task is `Ready` or `Running`, that is, has not finished.
    pub open spec fn has_unfinished(self) -> bool {
        exists|i: int|
            0 <= i < self.len() && (#[trigger] self.status(i) == TaskStatus::Ready || self.status(i)
                == TaskStatus::Running)
    }

    /// The indices of the tasks whose status is `Running`.
    pub open spec fn running_tasks(self) -> Set<int> {
        Set::new(|i: int| 0 <= i < self.len() && self.status(i) == TaskStatus::Running)
    }

    /// The current task, and no other, is `Running`.
    pub open spec fn one_running(self) -> bool {
        self.running_tasks() == set![self.current]
    }

    /// The scheduling invariant: as long as some task has not finished,
    /// exactly one task is `Running`, and it is the current one.
    pub open spec fn scheduled(self) -> bool {
        self.has_unfinished() ==> self.one_running()
    }

    /// Every task takes part in the rotation: the current one is
    /// `Running` and all others are `Ready`.
    pub open spec fn all_alive(self) -> bool {
        forall|i: int|
            0 <= i < self.len() ==> #[trigger] self.status(i) == if i == self.current {
                TaskStatus::Running
            } else {
                TaskStatus::Ready
            }
    }

    /// No task is `Running`: the state before the first task is started.
    pub open spec fn none_running(self) -> bool {
        self.running_tasks() == Set::<int>::empty()
    }
}

/// Stepping one slot further wraps round at the end of the list.
pub proof fn lemma_slot_step(v: ManagerView, k: int)
    requires
        v.wf(),
        0 <= k,
    ensures
        0 <= v.slot(k) < v.len(),
        v.slot(k + 1) == if v.slot(k) + 1 == v.len() {
            0
        } else {
            v.slot(k) + 1
        },
{
    let n = v.len();
    let x = v.current + k;
    assert(0 <= x % n < n && (x + 1) % n == if x % n + 1 == n {
        0
    } else {
        x % n + 1
    }) by (nonlinear_arith)
        requires
            n > 0,
            x >= 0,
    ;
}

/// The slot `k` places after the current one, for `k` up to the number of
/// tasks, without a remainder: `current + k`, less one round where that
/// runs past the end.
pub proof fn lemma_slot_value(v: ManagerView, k: int)
    requires
        v.wf(),
        0 <= k <= v.len(),
    ensures
        v.slot(k) == if v.current + k < v.len() {
            v.current + k
        } else {
            v.current + k - v.len()
        },
{
    let n = v.len();
    let x = v.current + k;
    assert(x % n == if x < n {
        x
    } else {
        x - n
    }) by (nonlinear_arith)
        requires
            0 <= x < 2 * n,
    ;
}

/// The slots `1 ..= len()` places after the current one are all the
/// slots: slot `i` lies `i - current` places after it, or that plus
/// `len()`.
pub proof fn lemma_slot_offset(v: ManagerView, i: int)
    requires
        v.wf(),
        0 <= i < v.len(),
    ensures
        ({
            let k = if i > v.current {
                i - v.current
            } else {
                i - v.current + v.len()
            };
            1 <= k <= v.len() && v.slot(k) == i
        }),
{
    let n = v.len();
    let c = v.current;
    if i > c {
        assert((c + (i - c)) % n == i) by (nonlinear_arith)
            requires
                0 <= i < n,
        ;
    } else {
        assert((c + (i - c + n)) % n == i) by (nonlinear_arith)
            requires
                0 <= i < n,
        ;
    }
}

/// What the scan from offset `k` finds: the first `Ready` slot at an
/// offset from `k` on, and nothing exactly when none of them is `Ready`.
pub proof fn lemma_scan_ready(v: ManagerView, k: int)
    requires
        v.wf(),
        1 <= k <= v.len() + 1,
    ensures
        match v.scan_ready(k) {
            Some(id) => exists|j: int|
                k <= j <= v.len() && id == #[trigger] v.slot(j) && v.status(id)
                    == TaskStatus::Ready && forall|m: int|
                    k <= m < j ==> v.status(#[trigger] v.slot(m)) != TaskStatus::Ready,
            None => forall|m: int|
                k <= m <= v.len() ==> v.status(#[trigger] v.slot(m)) != TaskStatus::Ready,
        },
    decreases v.len() + 1 - k,
{
    if k <= v.len() {
        if v.status(v.slot(k)) == TaskStatus::Ready {
            assert(v.scan_ready(k) == Some(v.slot(k)));
        } else {
            lemma_scan_ready(v, k + 1);
            match v.scan_ready(k + 1) {
                Some(id) => {
                    let j = choose|j: int|
                        k + 1 <= j <= v.len() && id == #[trigger] v.slot(j) && v.status(id)
                            == TaskStatus::Ready && forall|m: int|
                            k + 1 <= m < j ==> v.status(#[trigger] v.slot(m)) != TaskStatus::Ready;
                    assert(k <= j <= v.len() && id == v.slot(j) && v.status(id)
                        == TaskStatus::Ready && forall|m: int|
                        k <= m < j ==> v.status(#[trigger] v.slot(m)) != TaskStatus::Ready);
                },
                None => {},
            }
        }
    }
}

/// The next task to run is a `Ready` one, at the least offset after the
/// current task; there is none exactly when no task is `Ready`.
pub proof fn lemma_next_ready(v: ManagerView)
    requires
        v.wf(),
    ensures
        match v.next_ready() {
            Some(id) => 0 <= id < v.len() && v.status(id) == TaskStatus::Ready && exists|j: int|
                1 <= j <= v.len() && id == #[trigger] v.slot(j) && forall|m: int|
                    1 <= m < j ==> v.status(#[trigger] v.slot(m)) != TaskStatus::Ready,
            None => !v.has_ready(),
        },
        v.next_ready().is_some() <==> v.has_ready(),
{
    lemma_scan_ready(v, 1);
    match v.next_ready() {
        Some(id) => {
            let j = choose|j: int|
                1 <= j <= v.len() && id == #[trigger] v.slot(j) && v.status(id)
                    == TaskStatus::Ready && forall|m: int|
                    1 <= m < j ==> v.status(#[trigger] v.slot(m)) != TaskStatus::Ready;
            lemma_slot_step(v, j);
            assert(v.status(id) == TaskStatus::Ready);
        },
        None => {
            assert forall|i: int| 0 <= i < v.len() implies #[trigger] v.status(i)
                != TaskStatus::Ready by {
                lemma_slot_offset(v, i);
                let k = if i > v.current {
                    i - v.current
                } else {
                    i - v.current + v.len()
                };
                assert(v.status(v.slot(k)) != TaskStatus::Ready);
            }
        },
    }
}

} // verus!
