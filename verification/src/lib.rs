//! The scheduling, address-space and trap-dispatch core of a small
//! supervisor-mode kernel that multiplexes several applications over one
//! hardware execution context.
//!
//! Every decision the kernel takes is a function from plain state to plain
//! state: the caller reads the clock and the trap registers, hands the values
//! in, and carries out the context switch or timer programming that comes back.

pub mod config;
pub mod context;
pub mod elf;
pub mod frame;
pub mod image;
pub mod manager;
pub mod memory;
pub mod perm;
pub mod scheduler;
pub mod stride;
pub mod syscall;
pub mod task;
pub mod timer;
pub mod trap;
pub mod user;
