//! The task control block: everything the kernel keeps about one task.

use crate::config::{
    kernel_stack_end_page, kernel_stack_first_page, kernel_stack_fits, kernel_stack_position,
    kernel_stack_top, trap_context_page, MAX_SYSCALL_NUM,
};
use crate::mm::address::{PhysPageNum, VirtAddr};
use crate::mm::memory_set::{
    map_pages, range_free, spec_mmap, spec_mmap_result, spec_unmap, spec_unmap_result, valid_port,
    MapPermission, MemorySet,
};
use crate::task::context::TaskContext;
use vstd::prelude::*;

verus! {

/// Where a task stands in its life.
///
/// A task is made `Ready`, alternates between `Ready` and `Running` as it
/// is scheduled and yields, and ends `Exited`.  `UnInit` only marks a slot
/// that holds no task yet.
#[derive(Copy, Clone, PartialEq, Eq, Structural, Debug)]
pub enum TaskStatus {
    UnInit,
    Ready,
    Running,
    Exited,
}

/// A program as the loader hands it over: its address space, the top of
/// its user stack, and the frame that holds its trap-context page.
pub struct AppImage {
    pub memory_set: MemorySet,
    pub user_sp: usize,
    pub trap_cx_ppn: PhysPageNum,
}

/// The mathematical model of a task control block.
pub struct TaskView {
    pub status: TaskStatus,
    pub context: TaskContext,
    pub token: usize,
    pub space: Map<int, MapPermission>,
    pub trap_cx_ppn: PhysPageNum,
    pub base_size: usize,
    pub syscalls: Seq<u32>,
}

impl TaskView {
    /// The model of a task that was just made from `image` as task number
    /// `app_id`: ready to run, with its initial context on its own kernel
    /// stack and every syscall counter at zero.
    pub open spec fn fresh(image: AppImage, app_id: int, trap_return: usize) -> TaskView {
        TaskView {
            status: TaskStatus::Ready,
            context: TaskContext::spec_goto_trap_return(
                kernel_stack_top(app_id) as usize,
                trap_return,
            ),
            token: image.memory_set.spec_token(),
            space: image.memory_set@,
            trap_cx_ppn: image.trap_cx_ppn,
            base_size: image.user_sp,
            syscalls: Seq::new(MAX_SYSCALL_NUM as nat, |i: int| 0u32),
        }
    }

    /// The same task with another status.
    pub open spec fn with_status(self, status: TaskStatus) -> TaskView {
        TaskView { status, ..self }
    }

    /// The same task with another address space.
    pub open spec fn with_space(self, space: Map<int, MapPermission>) -> TaskView {
        TaskView { space, ..self }
    }

    /// The same task after one more invocation of syscall `id`.
    pub open spec fn count_syscall(self, id: int) -> TaskView {
        TaskView { syscalls: self.syscalls.update(id, (self.syscalls[id] + 1) as u32), ..self }
    }
}

/// Everything the kernel keeps about one task.
pub struct TaskControlBlock {
    pub task_status: TaskStatus,
    pub task_cx: TaskContext,
    pub memory_set: MemorySet,
    pub trap_cx_ppn: PhysPageNum,
    pub base_size: usize,
    pub syscall_counter: Vec<u32>,
}

impl AppImage {
    /// An image can be made a task when its address space is well formed
    /// and maps the trap-context page.
    pub open spec fn wf(&self) -> bool {
        &&& self.memory_set.wf()
        &&& self.memory_set@.dom().contains(trap_context_page())
    }
}

impl TaskControlBlock {
    /// The mathematical model of the task.
    pub open spec fn view(&self) -> TaskView {
        TaskView {
            status: self.task_status,
            context: self.task_cx,
            token: self.memory_set.spec_token(),
            space: self.memory_set@,
            trap_cx_ppn: self.trap_cx_ppn,
            base_size: self.base_size,
            syscalls: self.syscall_counter@,
        }
    }

    /// Well-formedness: the address space is well formed and there is one
    /// counter for each syscall number.
    pub open spec fn wf(&self) -> bool {
        &&& self.memory_set.wf()
        &&& self.syscall_counter@.len() == MAX_SYSCALL_NUM
    }

    /// The frame that holds the task's trap-context page.
    pub fn get_trap_cx(&self) -> (r: PhysPageNum)
        ensures
            r == self@.trap_cx_ppn,
    {
        self.trap_cx_ppn
    }

    /// The token of the task's address space.
    pub fn get_user_token(&self) -> (r: usize)
        ensures
            r == self@.token,
    {
        self.memory_set.token()
    }

    /// Makes the task control block of task number `app_id` from a loaded
    /// program, and maps the task's kernel stack in the kernel's own
    /// address space.
    ///
    /// The new task is `Ready`; its context resumes at `trap_return` on
    /// the fresh kernel stack.
    pub fn new(
        image: AppImage,
        app_id: usize,
        kernel_space: &mut MemorySet,
        trap_return: usize,
    ) -> (r: TaskControlBlock)
        requires
            image.wf(),
            kernel_stack_fits(app_id as int),
            old(kernel_space).wf(),
            range_free(
                old(kernel_space)@,
                kernel_stack_first_page(app_id as int),
                kernel_stack_end_page(app_id as int),
            ),
        ensures
            r.wf(),
            r@ == TaskView::fresh(image, app_id as int, trap_return),
            final(kernel_space).wf(),
            final(kernel_space).spec_token() == old(kernel_space).spec_token(),
            final(kernel_space)@ == map_pages(
                old(kernel_space)@,
                kernel_stack_first_page(app_id as int),
                kernel_stack_end_page(app_id as int),
                MapPermission::spec_kernel_rw(),
            ),
    {
        let AppImage { memory_set, user_sp, trap_cx_ppn } = image;
        let task_status = TaskStatus::Ready;
        let (kernel_stack_bottom, kernel_stack_top) = kernel_stack_position(app_id);
        kernel_space.insert_framed_area(
            VirtAddr(kernel_stack_bottom),
            VirtAddr(kernel_stack_top),
            MapPermission::kernel_rw(),
        );
        let syscall_counter: Vec<u32> = vec![0u32; MAX_SYSCALL_NUM];
        let task_control_block = TaskControlBlock {
            task_status,
            task_cx: TaskContext::goto_trap_return(kernel_stack_top, trap_return),
            memory_set,
            trap_cx_ppn,
            base_size: user_sp,
            syscall_counter,
        };
        assert(task_control_block@.syscalls =~= Seq::new(MAX_SYSCALL_NUM as nat, |i: int| 0u32));
        task_control_block
    }

    /// Counts one more invocation of syscall `syscall_id`.
    pub fn record_syscall(&mut self, syscall_id: usize)
        requires
            old(self).wf(),
            syscall_id < MAX_SYSCALL_NUM,
            old(self)@.syscalls[syscall_id as int] < u32::MAX,
        ensures
            final(self).wf(),
            final(self)@ == old(self)@.count_syscall(syscall_id as int),
    {
        let count: u32 = self.syscall_counter[syscall_id];
        self.syscall_counter.set(syscall_id, count + 1);
    }

    /// A copy of the syscall counters as they are now.
    pub fn get_record_syscall(&self) -> (r: Vec<u32>)
        ensures
            r@ == self@.syscalls,
    {
        let r = self.syscall_counter.clone();
        assert(r@ =~= self.syscall_counter@);
        r
    }

    /// Maps the pages of `virt_start .. virt_end` in the task's address
    /// space and returns what the address space returned.
    pub fn mmap(&mut self, virt_start: VirtAddr, virt_end: VirtAddr, port: usize) -> (r: isize)
        requires
            old(self).wf(),
            valid_port(port),
        ensures
            final(self).wf(),
            r == spec_mmap_result(old(self)@.space, virt_start, virt_end),
            final(self)@ == old(self)@.with_space(
                spec_mmap(old(self)@.space, virt_start, virt_end, port),
            ),
    {
        self.memory_set.mmap(virt_start, virt_end, port)
    }

    /// Unmaps the pages of `virt_start .. virt_end` in the task's address
    /// space and returns what the address space returned.
    pub fn unmap(&mut self, virt_start: VirtAddr, virt_end: VirtAddr) -> (r: isize)
        requires
            old(self).wf(),
        ensures
            final(self).wf(),
            r == spec_unmap_result(old(self)@.space, virt_start, virt_end),
            final(self)@ == old(self)@.with_space(
                spec_unmap(old(self)@.space, virt_start, virt_end),
            ),
    {
        self.memory_set.unmap(virt_start, virt_end)
    }
}

} // verus!
