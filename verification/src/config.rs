//! Fixed parameters of the kernel and the layout of kernel stacks.

use vstd::prelude::*;

verus! {

/// Bytes in one user stack.
pub const USER_STACK_SIZE: usize = 4096 * 2;

/// Bytes in one kernel stack.
pub const KERNEL_STACK_SIZE: usize = 4096 * 2;

/// Ticks of the machine clock per second.
pub const CLOCK_FREQ: usize = 12500000;

/// Timer interrupts per second.
pub const TICKS_PER_SEC: usize = 100;

/// Milliseconds per second.
pub const MSEC_PER_SEC: usize = 1000;

/// The most clock ticks a task may spend scheduled in: one minute.
pub const MAX_APP_LIFETIME_CLOCK: usize = 60 * CLOCK_FREQ;

/// Bytes in one page.
pub const PAGE_SIZE: usize = 4096;

/// Width of the offset inside a page.
pub const PAGE_SIZE_BITS: usize = 12;

/// First physical address past usable memory.
pub const MEMORY_END: usize = 0x80800000;

/// Virtual address of the trampoline page, the highest page of every
/// address space.
pub const TRAMPOLINE: usize = usize::MAX - PAGE_SIZE + 1;

/// Virtual address of a task's trap-context page, just below the trampoline.
pub const TRAP_CONTEXT: usize = TRAMPOLINE - PAGE_SIZE;

/// The room one kernel stack takes with its guard page.
pub open spec fn kernel_stack_slot() -> int {
    KERNEL_STACK_SIZE + PAGE_SIZE
}

/// Top of the kernel stack of slot `app_id`: slots descend from the
/// trampoline, each stack followed by one unmapped guard page.
pub open spec fn kernel_stack_top(app_id: int) -> int {
    TRAMPOLINE - app_id * kernel_stack_slot()
}

/// Whether slot `app_id` lies wholly inside the address range.
pub open spec fn kernel_stack_fits(app_id: int) -> bool {
    0 <= app_id && kernel_stack_top(app_id) - KERNEL_STACK_SIZE >= 0
}

/// Return (bottom, top) of a kernel stack in kernel space.
pub fn kernel_stack_position(app_id: usize) -> (pos: (usize, usize))
    requires
        kernel_stack_fits(app_id as int),
    ensures
        pos.1 == kernel_stack_top(app_id as int),
        pos.0 == pos.1 - KERNEL_STACK_SIZE,
{
    assert(app_id * 12288 <= usize::MAX) by (nonlinear_arith)
        requires
            usize::MAX - 4095 - app_id * (8192 + 4096) - 8192 >= 0,
    ;
    let top = TRAMPOLINE - app_id * (KERNEL_STACK_SIZE + PAGE_SIZE);
    let bottom = top - KERNEL_STACK_SIZE;
    (bottom, top)
}

/// Neighbouring kernel stacks never touch: between the bottom of one slot
/// and the top of the next lies exactly one guard page.
pub proof fn kernel_stacks_are_guarded(app_id: int)
    requires
        0 <= app_id,
    ensures
        kernel_stack_top(app_id) - KERNEL_STACK_SIZE - kernel_stack_top(app_id + 1) == PAGE_SIZE,
{
    assert(kernel_stack_top(app_id) - kernel_stack_top(app_id + 1) == kernel_stack_slot())
        by (nonlinear_arith);
}

} // verus!
