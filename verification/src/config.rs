//! Constants shared by the whole kernel core.

use vstd::prelude::*;

verus! {

/// Number of bits of the offset inside a page.
pub const PAGE_SIZE_BITS: usize = 12;

/// Size of a page in bytes.
pub const PAGE_SIZE: usize = 0x1000;

/// Number of slots in every task's syscall counter table.
pub const MAX_SYSCALL_NUM: usize = 500;

/// Size of each task's kernel stack in bytes.
pub const KERNEL_STACK_SIZE: usize = 0x2000;

/// Virtual address of the trampoline page, the topmost page of every
/// address space.
pub const TRAMPOLINE: usize = usize::MAX - PAGE_SIZE + 1;

/// Virtual address of the trap-context page, just below the trampoline.
pub const TRAP_CONTEXT: usize = TRAMPOLINE - PAGE_SIZE;

/// Top of the kernel stack of task `app_id`, as a mathematical integer.
///
/// Stacks are laid out downwards from the trampoline, with one unmapped
/// guard page between neighbours.
pub open spec fn kernel_stack_top(app_id: int) -> int {
    TRAMPOLINE - app_id * (KERNEL_STACK_SIZE + PAGE_SIZE)
}

/// Whether the kernel stack of task `app_id` fits below the trampoline.
pub open spec fn kernel_stack_fits(app_id: int) -> bool {
    0 <= app_id && (app_id + 1) * (KERNEL_STACK_SIZE + PAGE_SIZE) <= TRAMPOLINE
}

/// Number of the lowest page of the kernel stack of task `app_id`.
pub open spec fn kernel_stack_first_page(app_id: int) -> int {
    (kernel_stack_top(app_id) - KERNEL_STACK_SIZE) / (PAGE_SIZE as int)
}

/// Number of the page just above the kernel stack of task `app_id`.
pub open spec fn kernel_stack_end_page(app_id: int) -> int {
    kernel_stack_top(app_id) / (PAGE_SIZE as int)
}

/// Number of the trap-context page.
pub open spec fn trap_context_page() -> int {
    TRAP_CONTEXT as int / PAGE_SIZE as int
}

/// Each kernel stack is two pages long and lies three pages below the
/// one before it, so that no two kernel stacks share a page.
pub proof fn lemma_kernel_stack_pages(app_id: int)
    requires
        kernel_stack_fits(app_id),
    ensures
        kernel_stack_end_page(app_id) == kernel_stack_end_page(0) - 3 * app_id,
        kernel_stack_first_page(app_id) == kernel_stack_end_page(app_id) - 2,
        0 <= kernel_stack_first_page(app_id),
        kernel_stack_end_page(app_id) <= trap_context_page() + 1,
{
    assert(usize::BITS == 32 || usize::BITS == 64);
}

/// Bottom and top address of the kernel stack of task `app_id`.
pub fn kernel_stack_position(app_id: usize) -> (r: (usize, usize))
    requires
        kernel_stack_fits(app_id as int),
    ensures
        r.1 == kernel_stack_top(app_id as int),
        r.0 == r.1 - KERNEL_STACK_SIZE,
        r.0 % PAGE_SIZE == 0,
        r.1 % PAGE_SIZE == 0,
{
    let stride: usize = KERNEL_STACK_SIZE + PAGE_SIZE;
    assert(app_id * stride <= usize::MAX - stride) by (nonlinear_arith)
        requires
            (app_id + 1) * (stride as int) <= usize::MAX - 0x1000 + 1,
            stride == 0x3000,
    ;
    let top: usize = TRAMPOLINE - app_id * stride;
    let bottom: usize = top - KERNEL_STACK_SIZE;
    (bottom, top)
}

} // verus!
