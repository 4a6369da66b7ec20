//! Tasks and the scheduler that shares the single CPU among them.
//!
//! A [`TaskManager`] owns the tasks in a fixed order and knows which one
//! holds the CPU.  Rescheduling is round-robin: the next task to run is
//! the first `Ready` one after the current task, wrapping round.  The
//! manager decides; the transfer of control itself is left to the caller,
//! who is told by a [`Switch`] which context to save and which to resume.

pub mod context;
pub mod laws;
pub mod model;
pub mod task;

use crate::config::{
    kernel_stack_end_page, kernel_stack_first_page, kernel_stack_fits, lemma_kernel_stack_pages,
    MAX_SYSCALL_NUM,
};
use crate::mm::address::{PhysPageNum, VirtAddr};
use crate::mm::memory_set::{
    map_pages, range_free, spec_mmap, spec_mmap_result, spec_unmap, spec_unmap_result, valid_port,
    MapPermission, MemorySet,
};
use crate::task::context::TaskContext;
use crate::task::laws::{
    lemma_bookkeeping_keeps_schedule, lemma_exit_keeps_schedule, lemma_start_first_schedules,
    lemma_yield_keeps_schedule,
};
use crate::task::model::{
    elapsed_ms, lemma_next_ready, lemma_slot_step, lemma_slot_value, ManagerView,
};
use crate::task::task::{AppImage, TaskControlBlock, TaskStatus, TaskView};
use vstd::prelude::*;

verus! {

/// A transfer of the CPU that the caller is to carry out: save the
/// running context into task `from`, then resume task `to`.
#[derive(Copy, Clone, PartialEq, Eq, Structural, Debug)]
pub struct Switch {
    pub from: usize,
    pub to: usize,
}

/// `space` with the kernel stacks of the tasks `0 .. n` mapped, each
/// readable and writable by the kernel only.
pub open spec fn with_kernel_stacks(space: Map<int, MapPermission>, n: int) -> Map<
    int,
    MapPermission,
>
    decreases n,
{
    if n <= 0 {
        space
    } else {
        map_pages(
            with_kernel_stacks(space, n - 1),
            kernel_stack_first_page(n - 1),
            kernel_stack_end_page(n - 1),
            MapPermission::spec_kernel_rw(),
        )
    }
}

/// The state of a manager that was just made from `images` at time
/// `now_us`: every task fresh and `Ready`, the current index at the first.
pub open spec fn boot_view(
    images: Seq<AppImage>,
    trap_return: usize,
    now_us: usize,
) -> ManagerView {
    ManagerView {
        tasks: Seq::new(images.len(), |i: int| TaskView::fresh(images[i], i, trap_return)),
        current: 0,
        init_time: now_us as int / 1000,
    }
}

/// The task manager: all tasks, and which of them is running.
pub struct TaskManager {
    /// Total number of tasks.
    num_app: usize,
    /// The tasks, in loading order.
    tasks: Vec<TaskControlBlock>,
    /// Index of the task that holds the CPU.
    current_task: usize,
    /// When the manager was made, in milliseconds.
    init_time: usize,
}

impl TaskManager {
    /// The mathematical model of the manager.
    pub closed spec fn view(&self) -> ManagerView {
        ManagerView {
            tasks: self.tasks@.map_values(|t: TaskControlBlock| t@),
            current: self.current_task as int,
            init_time: self.init_time as int,
        }
    }

    /// What holds of the representation: the task count is the length of
    /// the task list, and every address space is well formed.
    pub closed spec fn inv(&self) -> bool {
        &&& self.num_app == self.tasks@.len()
        &&& forall|i: int|
            0 <= i < self.tasks@.len() ==> (#[trigger] self.tasks@[i]).memory_set.wf()
    }

    /// Well-formedness of the manager and of its model.
    pub open spec fn wf(&self) -> bool {
        self.inv() && self@.wf()
    }

    /// Makes the manager of the loaded programs `images`, in their order,
    /// at time `now_us`, and maps every task's kernel stack in
    /// `kernel_space`.
    pub fn new(
        images: Vec<AppImage>,
        kernel_space: &mut MemorySet,
        trap_return: usize,
        now_us: usize,
    ) -> (r: TaskManager)
        requires
            images.len() > 0,
            forall|i: int| 0 <= i < images.len() ==> (#[trigger] images[i]).wf(),
            kernel_stack_fits(images.len() - 1),
            old(kernel_space).wf(),
            forall|i: int|
                0 <= i < images.len() ==> range_free(
                    old(kernel_space)@,
                    #[trigger] kernel_stack_first_page(i),
                    kernel_stack_end_page(i),
                ),
        ensures
            r.wf(),
            r@ == boot_view(images@, trap_return, now_us),
            final(kernel_space).wf(),
            final(kernel_space).spec_token() == old(kernel_space).spec_token(),
            final(kernel_space)@ == with_kernel_stacks(old(kernel_space)@, images.len() as int),
    {
        let num_app = images.len();
        let ghost loaded = images@;
        let ghost kernel_before = kernel_space@;
        let mut tasks: Vec<TaskControlBlock> = Vec::new();
        for image in iter: images
            invariant
                num_app == loaded.len(),
                iter.seq() == loaded,
                tasks.len() == iter.index(),
                kernel_stack_fits(num_app - 1),
                forall|i: int| 0 <= i < loaded.len() ==> (#[trigger] loaded[i]).wf(),
                forall|i: int|
                    0 <= i < tasks.len() ==> (#[trigger] tasks[i]).wf() && tasks[i]@
                        == TaskView::fresh(loaded[i], i, trap_return),
                kernel_space.wf(),
                kernel_space.spec_token() == old(kernel_space).spec_token(),
                kernel_space@ == with_kernel_stacks(kernel_before, tasks.len() as int),
                forall|i: int|
                    tasks.len() <= i < num_app ==> range_free(
                        kernel_space@,
                        #[trigger] kernel_stack_first_page(i),
                        kernel_stack_end_page(i),
                    ),
        {
            let app_id = tasks.len();
            proof {
                lemma_kernel_stack_pages(app_id as int);
                assert forall|i: int| app_id < i < num_app implies range_free(
                    map_pages(
                        kernel_space@,
                        kernel_stack_first_page(app_id as int),
                        kernel_stack_end_page(app_id as int),
                        MapPermission::spec_kernel_rw(),
                    ),
                    #[trigger] kernel_stack_first_page(i),
                    kernel_stack_end_page(i),
                ) by {
                    lemma_kernel_stack_pages(i);
                    assert(range_free(
                        kernel_space@,
                        kernel_stack_first_page(i),
                        kernel_stack_end_page(i),
                    ));
                }
            }
            let task = TaskControlBlock::new(image, app_id, kernel_space, trap_return);
            tasks.push(task);
        }
        let r = TaskManager { num_app, tasks, current_task: 0, init_time: now_us / 1000 };
        assert(r@.tasks =~= boot_view(loaded, trap_return, now_us).tasks);
        r
    }

    /// Number of tasks.
    pub fn num_app(&self) -> (r: usize)
        requires
            self.wf(),
        ensures
            r == self@.len(),
    {
        self.num_app
    }

    /// Index of the task that holds the CPU.
    pub fn current_task(&self) -> (r: usize)
        requires
            self.wf(),
        ensures
            r == self@.current,
            r < self@.len(),
    {
        self.current_task
    }

    /// When the manager was made, in milliseconds.
    pub fn init_time(&self) -> (r: usize)
        ensures
            r == self@.init_time,
    {
        self.init_time
    }

    /// Status of task `id`.
    pub fn task_status(&self, id: usize) -> (r: TaskStatus)
        requires
            self.wf(),
            id < self@.len(),
        ensures
            r == self@.status(id as int),
    {
        self.tasks[id].task_status
    }

    /// The saved context of task `id`.
    pub fn task_context(&self, id: usize) -> (r: TaskContext)
        requires
            self.wf(),
            id < self@.len(),
        ensures
            r == self@.tasks[id as int].context,
    {
        self.tasks[id].task_cx
    }

    /// Stores `context` as the saved context of task `id`.
    pub fn save_task_context(&mut self, id: usize, context: TaskContext)
        requires
            old(self).wf(),
            id < old(self)@.len(),
        ensures
            final(self).wf(),
            final(self)@ == old(self)@.with_task(
                id as int,
                (TaskView { context, ..old(self)@.tasks[id as int] }),
            ),
    {
        self.tasks[id].task_cx = context;
        assert(self@.tasks =~= old(self)@.with_task(
            id as int,
            (TaskView { context, ..old(self)@.tasks[id as int] }),
        ).tasks);
    }

    /// Marks the first task `Running` and returns its index, for the
    /// caller to resume it from a context of its own.
    pub fn run_first_task(&mut self) -> (next: usize)
        requires
            old(self).wf(),
        ensures
            final(self).wf(),
            final(self)@ == old(self)@.start_first(),
            next == 0,
    {
        self.tasks[0].task_status = TaskStatus::Running;
        assert(self@.tasks =~= old(self)@.start_first().tasks);
        0
    }

    /// Changes the status of the current task to `Ready`.
    pub fn mark_current_suspended(&mut self)
        requires
            old(self).wf(),
        ensures
            final(self).wf(),
            final(self)@ == old(self)@.suspend_current(),
    {
        let current = self.current_task;
        self.tasks[current].task_status = TaskStatus::Ready;
        assert(self@.tasks =~= old(self)@.suspend_current().tasks);
    }

    /// Changes the status of the current task to `Exited`.
    pub fn mark_current_exited(&mut self)
        requires
            old(self).wf(),
        ensures
            final(self).wf(),
            final(self)@ == old(self)@.exit_current(),
    {
        let current = self.current_task;
        self.tasks[current].task_status = TaskStatus::Exited;
        assert(self@.tasks =~= old(self)@.exit_current().tasks);
    }

    /// Finds the task to run next: the first `Ready` one after the
    /// current task in cyclic order, the current task itself being looked
    /// at last.  Returns `None` when no task is `Ready`.
    pub fn find_next_task(&self) -> (r: Option<usize>)
        requires
            self.wf(),
        ensures
            match r {
                Some(id) => self@.next_ready() == Some(id as int) && id < self@.len()
                    && self@.status(id as int) == TaskStatus::Ready,
                None => self@.next_ready().is_none() && !self@.has_ready(),
            },
    {
        let n = self.num_app;
        let mut id = self.current_task;
        let mut left = n;
        proof {
            lemma_slot_value(self@, 0);
        }
        while left > 0
            invariant
                self.wf(),
                n == self@.len(),
                0 <= left <= n,
                id == self@.slot(n - left),
                self@.next_ready() == self@.scan_ready(n - left + 1),
            decreases left,
        {
            proof {
                lemma_slot_step(self@, n - left);
            }
            id = if id + 1 == n {
                0
            } else {
                id + 1
            };
            if self.tasks[id].task_status == TaskStatus::Ready {
                proof {
                    lemma_next_ready(self@);
                }
                return Some(id);
            }
            left -= 1;
        }
        proof {
            lemma_next_ready(self@);
        }
        None
    }

    /// The token of the current task's address space.
    pub fn get_current_token(&self) -> (r: usize)
        requires
            self.wf(),
        ensures
            r == self@.current_task().token,
    {
        self.tasks[self.current_task].get_user_token()
    }

    /// The frame that holds the current task's trap-context page.
    pub fn get_current_trap_cx(&self) -> (r: PhysPageNum)
        requires
            self.wf(),
        ensures
            r == self@.current_task().trap_cx_ppn,
    {
        self.tasks[self.current_task].get_trap_cx()
    }

    /// Gives the CPU to the next ready task: marks it `Running`, makes it
    /// the current task, and returns the switch to carry out.  Where no
    /// task is ready the manager is left as it was and `None` says that
    /// all tasks have completed.
    pub fn run_next_task(&mut self) -> (r: Option<Switch>)
        requires
            old(self).wf(),
        ensures
            final(self).wf(),
            final(self)@ == old(self)@.run_next(),
            match r {
                Some(switch) => old(self)@.next_ready() == Some(switch.to as int) && switch.from
                    == old(self)@.current,
                None => old(self)@.next_ready().is_none() && !old(self)@.has_ready(),
            },
    {
        match self.find_next_task() {
            Some(next) => {
                let current = self.current_task;
                self.tasks[next].task_status = TaskStatus::Running;
                self.current_task = next;
                assert(self@.tasks =~= old(self)@.run_next().tasks);
                Some(Switch { from: current, to: next })
            },
            None => None,
        }
    }

    /// Counts one more invocation of syscall `syscall_id` by the current
    /// task.
    pub fn record_syscall(&mut self, syscall_id: usize)
        requires
            old(self).wf(),
            syscall_id < MAX_SYSCALL_NUM,
            old(self)@.current_task().syscalls[syscall_id as int] < u32::MAX,
        ensures
            final(self).wf(),
            final(self)@ == old(self)@.count_syscall(syscall_id as int),
    {
        let current = self.current_task;
        self.tasks[current].record_syscall(syscall_id);
        assert(self@.tasks =~= old(self)@.count_syscall(syscall_id as int).tasks);
    }

    /// A copy of the current task's syscall counters as they are now.
    pub fn get_syscall_record(&self) -> (r: Vec<u32>)
        requires
            self.wf(),
        ensures
            r@ == self@.current_task().syscalls,
            r@.len() == MAX_SYSCALL_NUM,
    {
        self.tasks[self.current_task].get_record_syscall()
    }

    /// Milliseconds that have passed between the making of the manager
    /// and the time `now_us`, which is given in microseconds.
    pub fn get_time_interval(&self, now_us: usize) -> (r: usize)
        requires
            self.wf(),
            self@.init_time <= now_us / 1000,
        ensures
            r == elapsed_ms(self@.init_time, now_us as int),
    {
        let now = now_us / 1_000;
        let interval = now - self.init_time;
        interval
    }

    /// Maps the pages of `virt_start .. virt_end` in the current task's
    /// address space and returns what the address space returned.
    pub fn mmap(&mut self, virt_start: VirtAddr, virt_end: VirtAddr, port: usize) -> (r: isize)
        requires
            old(self).wf(),
            valid_port(port),
        ensures
            final(self).wf(),
            r == spec_mmap_result(old(self)@.current_task().space, virt_start, virt_end),
            final(self)@ == old(self)@.with_current_space(
                spec_mmap(old(self)@.current_task().space, virt_start, virt_end, port),
            ),
    {
        let current = self.current_task;
        let r = self.tasks[current].mmap(virt_start, virt_end, port);
        assert(self@.tasks =~= old(self)@.with_current_space(
            spec_mmap(old(self)@.current_task().space, virt_start, virt_end, port),
        ).tasks);
        r
    }

    /// Unmaps the pages of `virt_start .. virt_end` in the current task's
    /// address space and returns what the address space returned.
    pub fn unmap(&mut self, virt_start: VirtAddr, virt_end: VirtAddr) -> (r: isize)
        requires
            old(self).wf(),
        ensures
            final(self).wf(),
            r == spec_unmap_result(old(self)@.current_task().space, virt_start, virt_end),
            final(self)@ == old(self)@.with_current_space(
                spec_unmap(old(self)@.current_task().space, virt_start, virt_end),
            ),
    {
        let current = self.current_task;
        let r = self.tasks[current].unmap(virt_start, virt_end);
        assert(self@.tasks =~= old(self)@.with_current_space(
            spec_unmap(old(self)@.current_task().space, virt_start, virt_end),
        ).tasks);
        r
    }
}

/// Starts the first task: marks it `Running` and returns its index.
pub fn run_first_task(manager: &mut TaskManager) -> (next: usize)
    requires
        old(manager).wf(),
    ensures
        final(manager).wf(),
        final(manager)@ == old(manager)@.start_first(),
        next == 0,
        old(manager)@.current == 0 && old(manager)@.none_running()
            ==> final(manager)@.one_running(),
{
    proof {
        if manager@.current == 0 && manager@.none_running() {
            lemma_start_first_schedules(manager@);
        }
    }
    manager.run_first_task()
}

/// Gives the CPU to the next ready task, or reports with `None` that all
/// tasks have completed.
pub fn run_next_task(manager: &mut TaskManager) -> (r: Option<Switch>)
    requires
        old(manager).wf(),
    ensures
        final(manager).wf(),
        final(manager)@ == old(manager)@.run_next(),
        match r {
            Some(switch) => old(manager)@.next_ready() == Some(switch.to as int) && switch.from
                == old(manager)@.current,
            None => old(manager)@.next_ready().is_none() && !old(manager)@.has_ready(),
        },
{
    manager.run_next_task()
}

/// Changes the status of the current task to `Ready`.
pub fn mark_current_suspended(manager: &mut TaskManager)
    requires
        old(manager).wf(),
    ensures
        final(manager).wf(),
        final(manager)@ == old(manager)@.suspend_current(),
{
    manager.mark_current_suspended();
}

/// Changes the status of the current task to `Exited`.
pub fn mark_current_exited(manager: &mut TaskManager)
    requires
        old(manager).wf(),
    ensures
        final(manager).wf(),
        final(manager)@ == old(manager)@.exit_current(),
{
    manager.mark_current_exited();
}

/// Suspends the current task and gives the CPU to the next ready one,
/// which is the current task again when no other is ready.
pub fn suspend_current_and_run_next(manager: &mut TaskManager) -> (switch: Switch)
    requires
        old(manager).wf(),
    ensures
        final(manager).wf(),
        final(manager)@ == old(manager)@.yield_now(),
        switch.from == old(manager)@.current,
        switch.to == final(manager)@.current,
        old(manager)@.suspend_current().next_ready() == Some(switch.to as int),
        final(manager)@.status(switch.to as int) == TaskStatus::Running,
        old(manager)@.scheduled() ==> final(manager)@.one_running(),
{
    proof {
        if manager@.scheduled() {
            lemma_yield_keeps_schedule(manager@);
        }
    }
    mark_current_suspended(manager);
    assert(manager@.status(manager@.current) == TaskStatus::Ready);
    proof {
        lemma_next_ready(manager@);
    }
    match run_next_task(manager) {
        Some(switch) => switch,
        None => vstd::pervasive::unreached(),
    }
}

/// Ends the current task and gives the CPU to the next ready one.
/// Returns `None`, with nothing but the current task's status changed,
/// when no task is ready any more: all tasks have completed.
pub fn exit_current_and_run_next(manager: &mut TaskManager) -> (r: Option<Switch>)
    requires
        old(manager).wf(),
    ensures
        final(manager).wf(),
        final(manager)@ == old(manager)@.exit_now(),
        match r {
            Some(switch) => switch.from == old(manager)@.current
                && switch.to == final(manager)@.current
                && old(manager)@.exit_current().next_ready() == Some(switch.to as int),
            None => !old(manager)@.exit_current().has_ready()
                && final(manager)@ == old(manager)@.exit_current(),
        },
        old(manager)@.scheduled() ==> final(manager)@.scheduled(),
        old(manager)@.scheduled() && r.is_some() ==> final(manager)@.one_running(),
        old(manager)@.scheduled() && r.is_none() ==> !final(manager)@.has_unfinished(),
{
    proof {
        if manager@.scheduled() {
            lemma_exit_keeps_schedule(manager@);
        }
    }
    mark_current_exited(manager);
    proof {
        lemma_next_ready(manager@);
    }
    run_next_task(manager)
}

/// The token of the current task's address space.
pub fn current_user_token(manager: &TaskManager) -> (r: usize)
    requires
        manager.wf(),
    ensures
        r == manager@.current_task().token,
{
    manager.get_current_token()
}

/// The frame that holds the current task's trap-context page.
pub fn current_trap_cx(manager: &TaskManager) -> (r: PhysPageNum)
    requires
        manager.wf(),
    ensures
        r == manager@.current_task().trap_cx_ppn,
{
    manager.get_current_trap_cx()
}

/// Counts one more invocation of syscall `syscall_id` by the current
/// task.
pub fn record_syscall(manager: &mut TaskManager, syscall_id: usize)
    requires
        old(manager).wf(),
        syscall_id < MAX_SYSCALL_NUM,
        old(manager)@.current_task().syscalls[syscall_id as int] < u32::MAX,
    ensures
        final(manager).wf(),
        final(manager)@ == old(manager)@.count_syscall(syscall_id as int),
        old(manager)@.scheduled() ==> final(manager)@.scheduled(),
{
    proof {
        if manager@.scheduled() {
            lemma_bookkeeping_keeps_schedule(
                manager@,
                manager@.current_task().count_syscall(syscall_id as int),
            );
        }
    }
    manager.record_syscall(syscall_id);
}

/// A copy of the current task's syscall counters as they are now.
pub fn get_syscall_record(manager: &TaskManager) -> (r: Vec<u32>)
    requires
        manager.wf(),
    ensures
        r@ == manager@.current_task().syscalls,
        r@.len() == MAX_SYSCALL_NUM,
{
    manager.get_syscall_record()
}

/// Milliseconds between the making of the manager and the time `now_us`.
pub fn get_time_interval(manager: &TaskManager, now_us: usize) -> (r: usize)
    requires
        manager.wf(),
        manager@.init_time <= now_us / 1000,
    ensures
        r == elapsed_ms(manager@.init_time, now_us as int),
{
    manager.get_time_interval(now_us)
}

/// Maps the pages of `virt_start .. virt_end` in the current task's
/// address space.
pub fn mmap(
    manager: &mut TaskManager,
    virt_start: VirtAddr,
    virt_end: VirtAddr,
    port: usize,
) -> (r: isize)
    requires
        old(manager).wf(),
        valid_port(port),
    ensures
        final(manager).wf(),
        r == spec_mmap_result(old(manager)@.current_task().space, virt_start, virt_end),
        final(manager)@ == old(manager)@.with_current_space(
            spec_mmap(old(manager)@.current_task().space, virt_start, virt_end, port),
        ),
        old(manager)@.scheduled() ==> final(manager)@.scheduled(),
{
    proof {
        if manager@.scheduled() {
            lemma_bookkeeping_keeps_schedule(
                manager@,
                manager@.current_task().with_space(
                    spec_mmap(manager@.current_task().space, virt_start, virt_end, port),
                ),
            );
        }
    }
    manager.mmap(virt_start, virt_end, port)
}

/// Unmaps the pages of `virt_start .. virt_end` in the current task's
/// address space.
pub fn unmap(manager: &mut TaskManager, virt_start: VirtAddr, virt_end: VirtAddr) -> (r: isize)
    requires
        old(manager).wf(),
    ensures
        final(manager).wf(),
        r == spec_unmap_result(old(manager)@.current_task().space, virt_start, virt_end),
        final(manager)@ == old(manager)@.with_current_space(
            spec_unmap(old(manager)@.current_task().space, virt_start, virt_end),
        ),
        old(manager)@.scheduled() ==> final(manager)@.scheduled(),
{
    proof {
        if manager@.scheduled() {
            lemma_bookkeeping_keeps_schedule(
                manager@,
                manager@.current_task().with_space(
                    spec_unmap(manager@.current_task().space, virt_start, virt_end),
                ),
            );
        }
    }
    manager.unmap(virt_start, virt_end)
}

} // verus!
