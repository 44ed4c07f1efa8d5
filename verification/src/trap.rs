//! The single entry point for every transition from user mode into the
//! kernel: system calls, the timer interrupt, and faults.

use crate::context::decode_trap_cause;
use crate::context::trap_cause_of;
use crate::context::TrapCause;
use crate::context::TrapContext;
use crate::manager::exit_current_and_run_next;
use crate::manager::suspend_current_and_run_next;
use crate::manager::TaskManager;
use crate::manager::test_translate_in_current;
use crate::memory::page_floor;
use crate::memory::PageTableEntry;
use crate::scheduler::Dispatch;
use crate::scheduler::run_next;
use crate::scheduler::suspend;
use crate::scheduler::terminate;
use crate::syscall::as_unsigned;
use crate::syscall::is_known_syscall;
use crate::syscall::syscall;
use crate::syscall::syscall_effect;
use crate::syscall::SYSCALL_EXIT;
use crate::syscall::SYSCALL_GET_TIME;
use crate::syscall::SYSCALL_MMAP;
use crate::syscall::SYSCALL_MUNMAP;
use crate::syscall::SYSCALL_SET_PRIORITY;
use crate::syscall::SYSCALL_SLEEP;
use crate::syscall::SYSCALL_WRITE;
use crate::syscall::SYSCALL_YIELD;
use crate::syscall::SyscallOutcome;
use crate::syscall::unsigned_of;
use crate::timer::set_next_trigger;
use vstd::prelude::*;

verus! {

/// How the kernel has dealt with a trap, and what is left for the caller to
/// do to the machine.
#[derive(Clone, Copy, Debug, PartialEq, Eq, Structural)]
pub enum TrapOutcome {
    /// A system call was carried out.
    Syscall(SyscallOutcome),
    /// The timer fired: the timer is to fire next at `deadline`, and the
    /// running task was suspended.
    Preempted { deadline: usize, dispatch: Dispatch },
    /// The running task touched memory it may not touch, and was ended.
    /// `mapping` is what the page of the faulting address was mapped to.
    PageFault { mapping: Option<PageTableEntry>, dispatch: Dispatch },
    /// The running task executed an illegal instruction, and was ended.
    IllegalInstruction { dispatch: Dispatch },
    /// The trap, or the system call it asked for, is none that the kernel
    /// knows: an invariant of the kernel is broken and it must stop.
    Unsupported,
}

/// Whether `post` is the trap context `cx` after a system call that ended
/// as `out`: the program counter has moved past the calling instruction,
/// and what the call returns, if anything, is in register 10.
pub open spec fn after_syscall(cx: TrapContext, out: SyscallOutcome, post: TrapContext) -> bool {
    &&& post.sepc == cx.sepc.wrapping_add(4)
    &&& post.sstatus == cx.sstatus
    &&& post.kernel_satp == cx.kernel_satp
    &&& post.kernel_sp == cx.kernel_sp
    &&& post.trap_handler == cx.trap_handler
    &&& post.x@ == match out {
        SyscallOutcome::Return(r) => cx.x@.update(10, as_unsigned(r)),
        SyscallOutcome::Reschedule { ret, .. } => cx.x@.update(10, as_unsigned(ret)),
        SyscallOutcome::Exit(_) => cx.x@,
    }
}

/// What a trap with the given cause, taken by the running task at tick
/// `now` with `stval` in the trap-value register, makes of the kernel's
/// state, and how it ends.
pub open spec fn trap_effect(
    pre: &TaskManager,
    post: &TaskManager,
    cause: TrapCause,
    stval: usize,
    now: usize,
    out: TrapOutcome,
) -> bool {
    let cur = pre.current();
    let cx = pre.trap_contexts()[cur];
    match cause {
        TrapCause::UserEnvCall => if is_known_syscall(cx.x@[17]) {
            &&& out matches TrapOutcome::Syscall(so) && syscall_effect(
                pre,
                post,
                cx.x@[17],
                cx.x@[10],
                cx.x@[11],
                cx.x@[12],
                now,
                so,
            ) && after_syscall(cx, so, post.trap_contexts()[cur])
            &&& post.trap_contexts() == pre.trap_contexts().update(cur, post.trap_contexts()[cur])
        } else {
            &&& out == TrapOutcome::Unsupported
            &&& pre.unchanged(post)
            &&& post.trap_contexts() == pre.trap_contexts()
        },
        TrapCause::SupervisorTimer => {
            &&& post.kernel_space() == pre.kernel_space()
            &&& post.pool() == pre.pool()
            &&& post.trap_contexts() == pre.trap_contexts()
            &&& out matches TrapOutcome::Preempted { deadline, dispatch } && deadline
                == now.wrapping_add(125000) && run_next(
                suspend(pre.tasks(), cur, now),
                cur,
                now,
                post.tasks(),
                post.current(),
                dispatch,
            )
        },
        TrapCause::StoreFault | TrapCause::StorePageFault | TrapCause::LoadPageFault => {
            &&& post.kernel_space() == pre.kernel_space()
            &&& post.pool() == pre.pool()
            &&& post.trap_contexts() == pre.trap_contexts()
            &&& out matches TrapOutcome::PageFault { mapping, dispatch } && mapping
                == pre.tasks()[cur].memory_set.mapping(page_floor(stval as int)) && run_next(
                terminate(pre.tasks(), cur, now),
                cur,
                now,
                post.tasks(),
                post.current(),
                dispatch,
            )
        },
        TrapCause::IllegalInstruction => {
            &&& post.kernel_space() == pre.kernel_space()
            &&& post.pool() == pre.pool()
            &&& post.trap_contexts() == pre.trap_contexts()
            &&& out matches TrapOutcome::IllegalInstruction { dispatch } && run_next(
                terminate(pre.tasks(), cur, now),
                cur,
                now,
                post.tasks(),
                post.current(),
                dispatch,
            )
        },
        TrapCause::Unsupported => {
            &&& out == TrapOutcome::Unsupported
            &&& pre.unchanged(post)
            &&& post.trap_contexts() == pre.trap_contexts()
        },
    }
}

/// The dispatch that an outcome asks for, if it asks for one.
pub open spec fn dispatch_of(out: TrapOutcome) -> Option<Dispatch> {
    match out {
        TrapOutcome::Syscall(SyscallOutcome::Return(_)) => None,
        TrapOutcome::Syscall(SyscallOutcome::Reschedule { dispatch, .. }) => Some(dispatch),
        TrapOutcome::Syscall(SyscallOutcome::Exit(dispatch)) => Some(dispatch),
        TrapOutcome::Preempted { dispatch, .. } => Some(dispatch),
        TrapOutcome::PageFault { dispatch, .. } => Some(dispatch),
        TrapOutcome::IllegalInstruction { dispatch } => Some(dispatch),
        TrapOutcome::Unsupported => None,
    }
}

/// Whether `id` names a system call.
pub fn known_syscall(id: usize) -> (known: bool)
    ensures
        known == is_known_syscall(id),
{
    id == SYSCALL_WRITE || id == SYSCALL_EXIT || id == SYSCALL_SLEEP || id == SYSCALL_YIELD || id
        == SYSCALL_SET_PRIORITY || id == SYSCALL_GET_TIME || id == SYSCALL_MUNMAP || id
        == SYSCALL_MMAP
}

/// Carries out the system call that the running task asks for in its
/// saved registers: the identifier in register 17, the arguments in
/// registers 10 to 12. The saved program counter moves past the calling
/// instruction and the result goes to register 10 of the caller.
fn handle_syscall(manager: &mut TaskManager, now: usize) -> (out: TrapOutcome)
    requires
        old(manager).wf(),
        old(manager).running(),
    ensures
        final(manager).wf(),
        trap_effect(old(manager), final(manager), TrapCause::UserEnvCall, 0, now, out),
        dispatch_of(out) matches Some(d) ==> (d is Switch ==> final(manager).running()) && (d
            is Switch || d is Halt),
        dispatch_of(out) is None && out != TrapOutcome::Unsupported ==> final(manager).running(),
{
    let slot: usize = manager.get_current_app();
    let cx: TrapContext = *manager.trap_cx(slot);
    let id: usize = cx.x[17];
    if !known_syscall(id) {
        return TrapOutcome::Unsupported;
    }
    let mut next: TrapContext = cx;
    next.sepc = cx.sepc.wrapping_add(4);
    let so = syscall(manager, id, [cx.x[10], cx.x[11], cx.x[12]], now);
    let ghost mid = *manager;
    match so {
        SyscallOutcome::Return(r) => {
            next.x[10] = unsigned_of(r);
        },
        SyscallOutcome::Reschedule { ret, .. } => {
            next.x[10] = unsigned_of(ret);
        },
        SyscallOutcome::Exit(_) => {},
    }
    manager.set_trap_cx(slot, next);
    proof {
        assert(mid.unchanged(manager));
        assert(syscall_effect(
            old(manager),
            manager,
            cx.x@[17],
            cx.x@[10],
            cx.x@[11],
            cx.x@[12],
            now,
            so,
        ));
        assert(manager.trap_contexts() =~= old(manager).trap_contexts().update(
            slot as int,
            manager.trap_contexts()[slot as int],
        ));
    }
    TrapOutcome::Syscall(so)
}

/// Deals with a trap of the given cause, taken by the running task at tick
/// `now` with `stval` in the trap-value register.
///
/// A system call is carried out. The timer interrupt suspends the running
/// task and schedules the next one in. A fault ends the running task, and
/// only that task, and schedules the next one in. Anything else is reported
/// as unsupported and changes nothing.
pub fn handle_trap(manager: &mut TaskManager, cause: TrapCause, stval: usize, now: usize) -> (out:
    TrapOutcome)
    requires
        old(manager).wf(),
        old(manager).running(),
    ensures
        final(manager).wf(),
        trap_effect(old(manager), final(manager), cause, stval, now, out),
        dispatch_of(out) matches Some(d) ==> (d is Switch ==> final(manager).running()) && (d
            is Switch || d is Halt),
        dispatch_of(out) is None && out != TrapOutcome::Unsupported ==> final(manager).running(),
{
    match cause {
        TrapCause::UserEnvCall => handle_syscall(manager, now),
        TrapCause::SupervisorTimer => {
            let deadline = set_next_trigger(now);
            let dispatch = suspend_current_and_run_next(manager, now);
            TrapOutcome::Preempted { deadline, dispatch }
        },
        TrapCause::StoreFault | TrapCause::StorePageFault | TrapCause::LoadPageFault => {
            let mapping = test_translate_in_current(manager, stval);
            let dispatch = exit_current_and_run_next(manager, now);
            TrapOutcome::PageFault { mapping, dispatch }
        },
        TrapCause::IllegalInstruction => {
            let dispatch = exit_current_and_run_next(manager, now);
            TrapOutcome::IllegalInstruction { dispatch }
        },
        TrapCause::Unsupported => TrapOutcome::Unsupported,
    }
}

/// Deals with a trap taken by the running task at tick `now`, with
/// `scause` in the cause register and `stval` in the trap-value register.
pub fn trap_handler(manager: &mut TaskManager, scause: usize, stval: usize, now: usize) -> (out:
    TrapOutcome)
    requires
        old(manager).wf(),
        old(manager).running(),
    ensures
        final(manager).wf(),
        trap_effect(old(manager), final(manager), trap_cause_of(scause), stval, now, out),
        dispatch_of(out) matches Some(d) ==> (d is Switch ==> final(manager).running()) && (d
            is Switch || d is Halt),
        dispatch_of(out) is None && out != TrapOutcome::Unsupported ==> final(manager).running(),
{
    let cause = decode_trap_cause(scause);
    handle_trap(manager, cause, stval, now)
}

} // verus!
