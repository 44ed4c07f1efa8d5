//! The user side of the system-call interface: how an application states
//! each request in registers.

use crate::syscall::as_unsigned;
use crate::syscall::SYSCALL_EXIT;
use crate::syscall::SYSCALL_GET_TIME;
use crate::syscall::SYSCALL_MMAP;
use crate::syscall::SYSCALL_MUNMAP;
use crate::syscall::SYSCALL_SET_PRIORITY;
use crate::syscall::SYSCALL_SLEEP;
use crate::syscall::SYSCALL_WRITE;
use crate::syscall::SYSCALL_YIELD;
use crate::syscall::unsigned_of;
use vstd::prelude::*;

verus! {

/// A system call as the registers state it: the identifier, for register
/// 17, and three arguments, for registers 10 to 12.
#[derive(Clone, Copy, Debug)]
pub struct SyscallRequest {
    pub id: usize,
    pub args: [usize; 3],
}

impl SyscallRequest {
    /// Whether the request has the identifier `id` and the arguments `a0`,
    /// `a1`, `a2`.
    pub open spec fn is(&self, id: usize, a0: usize, a1: usize, a2: usize) -> bool {
        &&& self.id == id
        &&& self.args@ == seq![a0, a1, a2]
    }
}

/// A request with the given identifier and arguments.
fn request(id: usize, a0: usize, a1: usize, a2: usize) -> (req: SyscallRequest)
    ensures
        req.is(id, a0, a1, a2),
{
    let req = SyscallRequest { id, args: [a0, a1, a2] };
    assert(req.args@ =~= seq![a0, a1, a2]);
    req
}

/// The request to write the `len` bytes at address `buf` to descriptor
/// `fd`.
pub fn write(fd: usize, buf: usize, len: usize) -> (req: SyscallRequest)
    ensures
        req.is(SYSCALL_WRITE, fd, buf, len),
{
    request(SYSCALL_WRITE, fd, buf, len)
}

/// The request to exit with the code `exit_code`.
pub fn exit(exit_code: i32) -> (req: SyscallRequest)
    ensures
        req.is(SYSCALL_EXIT, as_unsigned(exit_code as isize), 0, 0),
{
    request(SYSCALL_EXIT, unsigned_of(exit_code as isize), 0, 0)
}

/// The request to yield the processor.
pub fn yield_() -> (req: SyscallRequest)
    ensures
        req.is(SYSCALL_YIELD, 0, 0, 0),
{
    request(SYSCALL_YIELD, 0, 0, 0)
}

/// The request for the time.
pub fn get_time() -> (req: SyscallRequest)
    ensures
        req.is(SYSCALL_GET_TIME, 0, 0, 0),
{
    request(SYSCALL_GET_TIME, 0, 0, 0)
}

/// The request to set the caller's priority to `prio`.
pub fn set_priority(prio: isize) -> (req: SyscallRequest)
    ensures
        req.is(SYSCALL_SET_PRIORITY, as_unsigned(prio), 0, 0),
{
    request(SYSCALL_SET_PRIORITY, unsigned_of(prio), 0, 0)
}

/// The request to sleep for `milliseconds`.
pub fn sleep(milliseconds: usize) -> (req: SyscallRequest)
    ensures
        req.is(SYSCALL_SLEEP, milliseconds, 0, 0),
{
    request(SYSCALL_SLEEP, milliseconds, 0, 0)
}

/// The request to map `len` bytes at `start` with the protection `prot`.
pub fn mmap(start: usize, len: usize, prot: usize) -> (req: SyscallRequest)
    ensures
        req.is(SYSCALL_MMAP, start, len, prot),
{
    request(SYSCALL_MMAP, start, len, prot)
}

/// The request to unmap the `len` bytes at `start`.
pub fn munmap(start: usize, len: usize) -> (req: SyscallRequest)
    ensures
        req.is(SYSCALL_MUNMAP, start, len, 0),
{
    request(SYSCALL_MUNMAP, start, len, 0)
}

} // verus!
