//! The saved execution state of a suspended task.

use vstd::prelude::*;

verus! {

/// What the switch primitive saves when a task is suspended and restores
/// when it resumes: the return address, the stack pointer and the twelve
/// callee-saved registers.
#[derive(Copy, Clone, Debug)]
pub struct TaskContext {
    pub ra: usize,
    pub sp: usize,
    pub s: [usize; 12],
}

/// Twelve registers that all hold zero.
pub open spec fn zeroed_registers() -> [usize; 12] {
    vstd::array::spec_array_fill_for_copy_type::<usize, 12>(0usize)
}

impl TaskContext {
    /// The context in which every register is zero.
    pub open spec fn spec_zero_init() -> TaskContext {
        TaskContext { ra: 0, sp: 0, s: zeroed_registers() }
    }

    /// The context of a task that has never run: resuming it enters
    /// `trap_return` on the kernel stack whose top is `kstack_ptr`.
    pub open spec fn spec_goto_trap_return(kstack_ptr: usize, trap_return: usize) -> TaskContext {
        TaskContext { ra: trap_return, sp: kstack_ptr, s: zeroed_registers() }
    }

    /// A context with every register zero, to be overwritten by the first
    /// switch away from it.
    pub fn zero_init() -> (r: TaskContext)
        ensures
            r == TaskContext::spec_zero_init(),
    {
        TaskContext { ra: 0, sp: 0, s: [0usize;12] }
    }

    /// The initial context of a task: its first resumption continues at
    /// `trap_return` with the stack pointer at `kstack_ptr`.
    pub fn goto_trap_return(kstack_ptr: usize, trap_return: usize) -> (r: TaskContext)
        ensures
            r == TaskContext::spec_goto_trap_return(kstack_ptr, trap_return),
            r.ra == trap_return,
            r.sp == kstack_ptr,
            forall|i: int| 0 <= i < 12 ==> r.s[i] == 0,
    {
        TaskContext { ra: trap_return, sp: kstack_ptr, s: [0usize;12] }
    }
}

} // verus!
