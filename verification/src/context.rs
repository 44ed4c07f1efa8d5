//! The two records saved for every task: the continuation that a context
//! switch resumes, and the user-mode state that a trap saves.

use riscv::interrupt::supervisor::Exception;
use riscv::interrupt::supervisor::Interrupt;
use riscv::interrupt::Trap;
use riscv::register::scause::Scause;
use riscv::register::sstatus::SPP;
use riscv::register::sstatus::Sstatus;
use vstd::prelude::*;

verus! {

/// What a context switch saves and restores: the return address, the stack
/// pointer, and the registers that must survive a call.
#[derive(Clone, Copy, Debug)]
pub struct TaskContext {
    pub ra: usize,
    pub sp: usize,
    pub s: [usize; 12],
}

impl TaskContext {
    /// A placeholder continuation, for the switch that starts the first task
    /// and has nothing to save.
    pub fn zero_init() -> (cx: TaskContext)
        ensures
            cx.ra == 0,
            cx.sp == 0,
            cx.s@ == Seq::new(12, |i: int| 0usize),
    {
        let cx = TaskContext { ra: 0, sp: 0, s: [0;12] };
        assert(cx.s@ =~= Seq::new(12, |i: int| 0usize));
        cx
    }

    /// The continuation of a task that has never run: it resumes at the
    /// trap-return routine, at address `trap_return`, on the kernel stack
    /// that ends at `kstack_ptr`.
    pub fn goto_trap_return(kstack_ptr: usize, trap_return: usize) -> (cx: TaskContext)
        ensures
            cx.ra == trap_return,
            cx.sp == kstack_ptr,
            cx.s@ == Seq::new(12, |i: int| 0usize),
    {
        let cx = TaskContext { ra: trap_return, sp: kstack_ptr, s: [0;12] };
        assert(cx.s@ =~= Seq::new(12, |i: int| 0usize));
        cx
    }
}

/// The bits of the status register that the register type keeps.
pub open spec fn sstatus_mask() -> usize {
    if usize::BITS == 64 {
        0x8000_0003_000d_e762u64 as usize
    } else {
        0x800d_e762usize
    }
}

/// A status-register value with the previous privilege mode set to user:
/// the kept bits of `bits`, with bit 8 cleared.
pub open spec fn user_sstatus(bits: usize) -> usize {
    bits & sstatus_mask() & !0x100usize
}

/// Sets the previous privilege mode of a status-register value to user.
///
/// Trusted: calls `Sstatus::from_bits`, `Sstatus::set_spp` with `SPP::User`
/// and `Sstatus::bits` of the `riscv` crate. The first and the last keep only
/// the bits of the register's mask; the second clears the one-bit field at
/// bit 8.
#[verifier::external_body]
fn sstatus_for_user(bits: usize) -> (r: usize)
    ensures
        r == user_sstatus(bits),
{
    let mut status = Sstatus::from_bits(bits);
    status.set_spp(SPP::User);
    status.bits()
}

/// The user-mode state saved on a trap: the general registers, the status
/// register, the program counter, and what the trap entry code needs to
/// reach the kernel.
#[derive(Clone, Copy, Debug)]
pub struct TrapContext {
    pub x: [usize; 32],
    pub sstatus: usize,
    pub sepc: usize,
    pub kernel_satp: usize,
    pub kernel_sp: usize,
    pub trap_handler: usize,
}

impl TrapContext {
    /// Sets the saved stack pointer, register 2.
    pub fn set_sp(&mut self, sp: usize)
        ensures
            final(self).x@ == old(self).x@.update(2, sp),
            final(self).sstatus == old(self).sstatus,
            final(self).sepc == old(self).sepc,
            final(self).kernel_satp == old(self).kernel_satp,
            final(self).kernel_sp == old(self).kernel_sp,
            final(self).trap_handler == old(self).trap_handler,
    {
        self.x[2] = sp;
    }

    /// The trap context of a task about to start: it enters user mode at
    /// `entry` with stack pointer `sp` and every other register zero.
    /// `sstatus` is the current value of the status register.
    pub fn app_init_context(
        entry: usize,
        sp: usize,
        kernel_satp: usize,
        kernel_sp: usize,
        trap_handler: usize,
        sstatus: usize,
    ) -> (cx: TrapContext)
        ensures
            cx.x@ == Seq::new(32, |i: int| 0usize).update(2, sp),
            cx.sstatus == user_sstatus(sstatus),
            cx.sepc == entry,
            cx.kernel_satp == kernel_satp,
            cx.kernel_sp == kernel_sp,
            cx.trap_handler == trap_handler,
    {
        let mut cx = TrapContext {
            x: [0;32],
            sstatus: sstatus_for_user(sstatus),
            sepc: entry,
            kernel_satp,
            kernel_sp,
            trap_handler,
        };
        assert(cx.x@ =~= Seq::new(32, |i: int| 0usize));
        cx.set_sp(sp);
        cx
    }
}

/// Why control passed from user mode to the kernel.
#[derive(Clone, Copy, Debug, PartialEq, Eq, Structural)]
pub enum TrapCause {
    /// A system call.
    UserEnvCall,
    /// The timer fired.
    SupervisorTimer,
    /// A store to an address that cannot be written.
    StoreFault,
    /// A store to an unmapped or protected page.
    StorePageFault,
    /// A load from an unmapped or protected page.
    LoadPageFault,
    /// An instruction that cannot be executed.
    IllegalInstruction,
    /// Anything else.
    Unsupported,
}

/// The cause that a raw cause-register value stands for. The top bit tells
/// an interrupt from an exception; the other bits are its code.
pub open spec fn trap_cause_of(bits: usize) -> TrapCause {
    let half = usize::MAX as int / 2;
    if bits > half {
        if bits - half - 1 == 5 {
            TrapCause::SupervisorTimer
        } else {
            TrapCause::Unsupported
        }
    } else if bits == 2 {
        TrapCause::IllegalInstruction
    } else if bits == 7 {
        TrapCause::StoreFault
    } else if bits == 8 {
        TrapCause::UserEnvCall
    } else if bits == 13 {
        TrapCause::LoadPageFault
    } else if bits == 15 {
        TrapCause::StorePageFault
    } else {
        TrapCause::Unsupported
    }
}

/// Decodes a raw cause-register value.
///
/// Trusted: calls `Scause::from_bits` and `Scause::cause` of the `riscv`
/// crate, which split the value into the interrupt bit (the top bit) and the
/// code, and `Trap::try_into` with the crate's supervisor-mode `Interrupt`
/// and `Exception` enumerations, which fails on a code that they do not
/// list. The six causes that the kernel handles keep their meaning; every
/// other outcome becomes `Unsupported`.
#[verifier::external_body]
pub(crate) fn decode_trap_cause(bits: usize) -> (cause: TrapCause)
    ensures
        cause == trap_cause_of(bits),
{
    let raw = Scause::from_bits(bits).cause();
    match raw.try_into::<Interrupt, Exception>() {
        Ok(Trap::Exception(Exception::UserEnvCall)) => TrapCause::UserEnvCall,
        Ok(Trap::Interrupt(Interrupt::SupervisorTimer)) => TrapCause::SupervisorTimer,
        Ok(Trap::Exception(Exception::StoreFault)) => TrapCause::StoreFault,
        Ok(Trap::Exception(Exception::StorePageFault)) => TrapCause::StorePageFault,
        Ok(Trap::Exception(Exception::LoadPageFault)) => TrapCause::LoadPageFault,
        Ok(Trap::Exception(Exception::IllegalInstruction)) => TrapCause::IllegalInstruction,
        _ => TrapCause::Unsupported,
    }
}

} // verus!
