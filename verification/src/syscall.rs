//! The system calls: what each one does to the kernel's state and what it
//! returns to the caller.

use crate::config::CLOCK_FREQ;
use crate::config::MSEC_PER_SEC;
use crate::manager::current_mmap;
use crate::manager::current_munmap;
use crate::manager::current_sleep_for_ticks;
use crate::manager::exit_current_and_run_next;
use crate::manager::set_current_task_priority;
use crate::manager::suspend_current_and_run_next;
use crate::manager::TaskManager;
use crate::memory::mmap_effect;
use crate::memory::munmap_effect;
use crate::scheduler::Dispatch;
use crate::scheduler::put_to_sleep;
use crate::scheduler::run_next;
use crate::scheduler::suspend;
use crate::scheduler::terminate;
use crate::task::TaskControlBlock;
use crate::timer::get_time_ms;
use vstd::prelude::*;

verus! {

/// The identifier of each system call.
pub const SYSCALL_WRITE: usize = 64;

pub const SYSCALL_EXIT: usize = 93;

pub const SYSCALL_SLEEP: usize = 101;

pub const SYSCALL_YIELD: usize = 124;

pub const SYSCALL_SET_PRIORITY: usize = 140;

pub const SYSCALL_GET_TIME: usize = 169;

pub const SYSCALL_MUNMAP: usize = 215;

pub const SYSCALL_MMAP: usize = 222;

/// The descriptor of standard output, the only one that can be written to.
pub const FD_STDOUT: usize = 1;

/// How a system call ends.
#[derive(Clone, Copy, Debug, PartialEq, Eq, Structural)]
pub enum SyscallOutcome {
    /// The call returns the value to its caller, which goes on running.
    Return(isize),
    /// The call returns `ret` to its caller, which has been suspended; the
    /// processor is to follow `dispatch`.
    Reschedule { ret: isize, dispatch: Dispatch },
    /// The caller has exited and gets no answer; the processor is to follow
    /// the dispatch.
    Exit(Dispatch),
}

/// Whether `id` names a system call.
pub open spec fn is_known_syscall(id: usize) -> bool {
    id == SYSCALL_WRITE || id == SYSCALL_EXIT || id == SYSCALL_SLEEP || id == SYSCALL_YIELD || id
        == SYSCALL_SET_PRIORITY || id == SYSCALL_GET_TIME || id == SYSCALL_MUNMAP || id
        == SYSCALL_MMAP
}

/// A register value read as a signed number, in two's complement.
pub open spec fn as_signed(x: usize) -> isize {
    if x <= isize::MAX {
        x as isize
    } else {
        (x - usize::MAX - 1) as isize
    }
}

/// A signed number as the register value that holds it, in two's
/// complement.
pub open spec fn as_unsigned(x: isize) -> usize {
    if x >= 0 {
        x as usize
    } else {
        (x + usize::MAX + 1) as usize
    }
}

/// The clock ticks that `ms` milliseconds take. The product wraps around at
/// the width of the clock.
pub open spec fn sleep_ticks(ms: usize) -> usize {
    ms.wrapping_mul(CLOCK_FREQ) / MSEC_PER_SEC
}

/// The priority that a request for `prio` sets: `prio` itself, or the
/// largest priority if `prio` is beyond it.
pub open spec fn clamped_priority(prio: isize) -> u16 {
    if prio > u16::MAX {
        u16::MAX
    } else {
        prio as u16
    }
}

/// What a write of the `len` bytes at `buf` to descriptor `fd` returns:
/// `len`, if the descriptor is standard output and the bytes all lie in
/// memory that the calling task may read; -1 otherwise.
pub open spec fn write_result(m: &TaskManager, fd: usize, buf: usize, len: usize) -> isize {
    if fd == FD_STDOUT && len <= isize::MAX && buf + len <= usize::MAX && m.tasks()[m.current()].memory_set.user_can_read(
        buf as int,
        buf + len,
    ) {
        len as isize
    } else {
        -1isize
    }
}

/// Whether `post` is `pre` with the address space of the current task
/// replaced, and the pool with it.
pub open spec fn memory_step(pre: &TaskManager, post: &TaskManager) -> bool {
    &&& post.current() == pre.current()
    &&& post.tasks() == pre.tasks().update(
        pre.current(),
        (TaskControlBlock {
            memory_set: post.tasks()[pre.current()].memory_set,
            ..pre.tasks()[pre.current()]
        }),
    )
}

/// What system call `id` with the arguments `a0`, `a1`, `a2`, made by the
/// running task at tick `now`, makes of the tasks, the current slot and
/// memory, and how it ends.
pub open spec fn syscall_effect(
    pre: &TaskManager,
    post: &TaskManager,
    id: usize,
    a0: usize,
    a1: usize,
    a2: usize,
    now: usize,
    out: SyscallOutcome,
) -> bool {
    let cur = pre.current();
    &&& post.kernel_space() == pre.kernel_space()
    &&& if id == SYSCALL_WRITE {
        &&& out == SyscallOutcome::Return(write_result(pre, a0, a1, a2))
        &&& pre.unchanged(post)
    } else if id == SYSCALL_EXIT {
        &&& post.pool() == pre.pool()
        &&& out matches SyscallOutcome::Exit(d) && run_next(
            terminate(pre.tasks(), cur, now),
            cur,
            now,
            post.tasks(),
            post.current(),
            d,
        )
    } else if id == SYSCALL_SLEEP {
        &&& post.pool() == pre.pool()
        &&& out matches SyscallOutcome::Reschedule { ret, dispatch } && ret == 0 && run_next(
            suspend(put_to_sleep(pre.tasks(), cur, sleep_ticks(a0), now), cur, now),
            cur,
            now,
            post.tasks(),
            post.current(),
            dispatch,
        )
    } else if id == SYSCALL_YIELD {
        &&& post.pool() == pre.pool()
        &&& out matches SyscallOutcome::Reschedule { ret, dispatch } && ret == 0 && run_next(
            suspend(pre.tasks(), cur, now),
            cur,
            now,
            post.tasks(),
            post.current(),
            dispatch,
        )
    } else if id == SYSCALL_SET_PRIORITY {
        if as_signed(a0) < 2 {
            &&& out == SyscallOutcome::Return(-1isize)
            &&& pre.unchanged(post)
        } else {
            &&& out == SyscallOutcome::Return(clamped_priority(as_signed(a0)) as isize)
            &&& pre.only_task_changed(
                post,
                cur,
                (TaskControlBlock {
                    task_priority: clamped_priority(as_signed(a0)),
                    ..pre.tasks()[cur]
                }),
            )
        }
    } else if id == SYSCALL_GET_TIME {
        &&& out == SyscallOutcome::Return((now / 12500) as isize)
        &&& pre.unchanged(post)
    } else if id == SYSCALL_MUNMAP {
        &&& memory_step(pre, post)
        &&& out matches SyscallOutcome::Return(r) && munmap_effect(
            &pre.tasks()[cur].memory_set,
            &post.tasks()[cur].memory_set,
            &pre.pool(),
            &post.pool(),
            a0,
            a1,
            r,
        )
    } else if id == SYSCALL_MMAP {
        &&& memory_step(pre, post)
        &&& out matches SyscallOutcome::Return(r) && mmap_effect(
            &pre.tasks()[cur].memory_set,
            &post.tasks()[cur].memory_set,
            &pre.pool(),
            &post.pool(),
            a0,
            a1,
            a2,
            r,
        )
    } else {
        false
    }
}

/// A sleep that the clock can count takes 12,500 ticks for each
/// millisecond, so 100 milliseconds take 1,250,000.
pub proof fn sleep_ticks_are_exact(ms: usize)
    requires
        ms * CLOCK_FREQ <= usize::MAX,
    ensures
        sleep_ticks(ms) == ms * 12500,
        ms == 100 ==> sleep_ticks(ms) == 1250000,
{
    assert(ms * 12500000 <= usize::MAX);
    assert((ms * 12500000) as nat % (usize::MAX as nat + 1) == ms * 12500000) by {
        vstd::arithmetic::div_mod::lemma_small_mod((ms * 12500000) as nat, usize::MAX as nat + 1);
    }
    assert((ms * 12500000) / 1000 == ms * 12500);
}

/// Reads a register value as a signed number.
pub fn signed_of(x: usize) -> (r: isize)
    ensures
        r == as_signed(x),
{
    if x <= isize::MAX as usize {
        x as isize
    } else {
        -((usize::MAX - x) as isize) - 1
    }
}

/// The register value that holds a signed number.
pub fn unsigned_of(x: isize) -> (r: usize)
    ensures
        r == as_unsigned(x),
{
    if x >= 0 {
        x as usize
    } else {
        usize::MAX - ((-(x + 1)) as usize)
    }
}

/// Reading a signed number back from the register that holds it gives the
/// number, and the other way round.
pub proof fn signed_round_trip(x: isize, y: usize)
    ensures
        as_signed(as_unsigned(x)) == x,
        as_unsigned(as_signed(y)) == y,
{
}

/// Writes the `len` bytes at `buf` to descriptor `fd`: decides whether the
/// write is allowed, and returns what the call returns. The bytes
/// themselves are for the caller to put out, if the result is not negative.
pub fn sys_write(manager: &TaskManager, fd: usize, buf: usize, len: usize) -> (r: isize)
    requires
        manager.wf(),
    ensures
        r == write_result(manager, fd, buf, len),
{
    if !manager.current_can_read(buf, len) {
        return -1;
    }
    if fd != FD_STDOUT || len > isize::MAX as usize {
        return -1;
    }
    len as isize
}

/// Ends the running task and schedules the next one in. There is nothing
/// to return to the caller.
pub fn sys_exit(manager: &mut TaskManager, exit_code: i32, now: usize) -> (d: Dispatch)
    requires
        old(manager).wf(),
        old(manager).running(),
    ensures
        final(manager).wf(),
        final(manager).trap_contexts() == old(manager).trap_contexts(),
        syscall_effect(
            old(manager),
            final(manager),
            SYSCALL_EXIT,
            as_unsigned(exit_code as isize),
            0,
            0,
            now,
            SyscallOutcome::Exit(d),
        ),
        d is Switch ==> final(manager).running(),
        d is Switch || d is Halt,
{
    exit_current_and_run_next(manager, now)
}

/// Suspends the running task in favour of the next one, and returns 0 to
/// it.
pub fn sys_yield(manager: &mut TaskManager, now: usize) -> (r: (isize, Dispatch))
    requires
        old(manager).wf(),
        old(manager).running(),
    ensures
        final(manager).wf(),
        final(manager).trap_contexts() == old(manager).trap_contexts(),
        r.0 == 0,
        syscall_effect(
            old(manager),
            final(manager),
            SYSCALL_YIELD,
            0,
            0,
            0,
            now,
            (SyscallOutcome::Reschedule { ret: r.0, dispatch: r.1 }),
        ),
        r.1 is Switch ==> final(manager).running(),
        r.1 is Switch || r.1 is Halt,
{
    let d = suspend_current_and_run_next(manager, now);
    (0, d)
}

/// The milliseconds since the clock started, when it reads `now`.
pub fn sys_get_time(now: usize) -> (r: isize)
    ensures
        r == now / 12500,
        r >= 0,
{
    get_time_ms(now) as isize
}

/// Sets the priority of the current task to `prio`, or to the largest
/// priority if `prio` is beyond it, and returns the priority that was set.
/// A `prio` below 2 is refused: the call returns -1 and changes nothing.
pub fn sys_set_priority(manager: &mut TaskManager, prio: isize) -> (r: isize)
    requires
        old(manager).wf(),
    ensures
        final(manager).wf(),
        final(manager).trap_contexts() == old(manager).trap_contexts(),
        syscall_effect(
            old(manager),
            final(manager),
            SYSCALL_SET_PRIORITY,
            as_unsigned(prio),
            0,
            0,
            0,
            SyscallOutcome::Return(r),
        ),
        r == (if prio < 2 {
            -1isize
        } else {
            clamped_priority(prio) as isize
        }),
{
    if prio < 2 {
        return -1;
    }
    let clamped: u16 = if prio > 65535 {
        u16::MAX
    } else {
        prio as u16
    };
    set_current_task_priority(manager, clamped);
    clamped as isize
}

/// Puts the running task to sleep for `milliseconds`, schedules the next
/// one in, and returns 0 to the sleeper.
pub fn sys_sleep(manager: &mut TaskManager, milliseconds: usize, now: usize) -> (r: (
    isize,
    Dispatch,
))
    requires
        old(manager).wf(),
        old(manager).running(),
    ensures
        final(manager).wf(),
        final(manager).trap_contexts() == old(manager).trap_contexts(),
        r.0 == 0,
        syscall_effect(
            old(manager),
            final(manager),
            SYSCALL_SLEEP,
            milliseconds,
            0,
            0,
            now,
            (SyscallOutcome::Reschedule { ret: r.0, dispatch: r.1 }),
        ),
        r.1 is Switch ==> final(manager).running(),
        r.1 is Switch || r.1 is Halt,
{
    let ticks: usize = milliseconds.wrapping_mul(CLOCK_FREQ) / MSEC_PER_SEC;
    let d = current_sleep_for_ticks(manager, ticks, now);
    (0, d)
}

/// Maps `len` bytes at `start` for the current task with the protection
/// `prot`. Returns `len`, or -1 if the request is not allowed.
pub fn sys_mmap(manager: &mut TaskManager, start: usize, len: usize, prot: usize) -> (r: isize)
    requires
        old(manager).wf(),
    ensures
        final(manager).wf(),
        final(manager).trap_contexts() == old(manager).trap_contexts(),
        syscall_effect(
            old(manager),
            final(manager),
            SYSCALL_MMAP,
            start,
            len,
            prot,
            0,
            SyscallOutcome::Return(r),
        ),
{
    current_mmap(manager, start, len, prot)
}

/// Unmaps the `len` bytes at `start` for the current task. Returns 0, or
/// -1 if the request is not allowed.
pub fn sys_munmap(manager: &mut TaskManager, start: usize, len: usize) -> (r: isize)
    requires
        old(manager).wf(),
    ensures
        final(manager).wf(),
        final(manager).trap_contexts() == old(manager).trap_contexts(),
        syscall_effect(
            old(manager),
            final(manager),
            SYSCALL_MUNMAP,
            start,
            len,
            0,
            0,
            SyscallOutcome::Return(r),
        ),
{
    current_munmap(manager, start, len)
}

/// Carries out system call `syscall_id` with the arguments `args` for the
/// running task, at tick `now`.
pub fn syscall(manager: &mut TaskManager, syscall_id: usize, args: [usize; 3], now: usize) -> (out:
    SyscallOutcome)
    requires
        old(manager).wf(),
        old(manager).running(),
        is_known_syscall(syscall_id),
    ensures
        final(manager).wf(),
        final(manager).trap_contexts() == old(manager).trap_contexts(),
        syscall_effect(
            old(manager),
            final(manager),
            syscall_id,
            args@[0],
            args@[1],
            args@[2],
            now,
            out,
        ),
        out is Return ==> final(manager).running(),
        out matches SyscallOutcome::Reschedule { dispatch, .. } ==> (dispatch is Switch
            ==> final(manager).running()) && (dispatch is Switch || dispatch is Halt),
        out matches SyscallOutcome::Exit(dispatch) ==> (dispatch is Switch
            ==> final(manager).running()) && (dispatch is Switch || dispatch is Halt),
{
    if syscall_id == SYSCALL_WRITE {
        SyscallOutcome::Return(sys_write(manager, args[0], args[1], args[2]))
    } else if syscall_id == SYSCALL_EXIT {
        let code: i32 = exit_code_of(args[0]);
        SyscallOutcome::Exit(sys_exit(manager, code, now))
    } else if syscall_id == SYSCALL_SLEEP {
        let (ret, dispatch) = sys_sleep(manager, args[0], now);
        SyscallOutcome::Reschedule { ret, dispatch }
    } else if syscall_id == SYSCALL_YIELD {
        let (ret, dispatch) = sys_yield(manager, now);
        SyscallOutcome::Reschedule { ret, dispatch }
    } else if syscall_id == SYSCALL_SET_PRIORITY {
        proof {
            signed_round_trip(0, args@[0]);
        }
        SyscallOutcome::Return(sys_set_priority(manager, signed_of(args[0])))
    } else if syscall_id == SYSCALL_GET_TIME {
        SyscallOutcome::Return(sys_get_time(now))
    } else if syscall_id == SYSCALL_MUNMAP {
        SyscallOutcome::Return(sys_munmap(manager, args[0], args[1]))
    } else {
        SyscallOutcome::Return(sys_mmap(manager, args[0], args[1], args[2]))
    }
}

/// The exit code that a register value carries: its low 32 bits, read as a
/// signed number.
pub fn exit_code_of(x: usize) -> (code: i32)
    ensures
        code as int == if (x as int) % 0x1_0000_0000 < 0x8000_0000 {
            (x as int) % 0x1_0000_0000
        } else {
            (x as int) % 0x1_0000_0000 - 0x1_0000_0000
        },
{
    let low: usize = x % 0x8000_0000;
    let high: bool = (x / 0x8000_0000) % 2 == 1;
    if high {
        (low as i32) - 0x7fff_ffff - 1
    } else {
        low as i32
    }
}

} // verus!
