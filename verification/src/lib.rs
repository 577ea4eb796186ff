//! Userspace runtime support library for SafaOS programs.
//!
//! The core of the library is a heap allocator that manages memory granted by
//! the operating system in page-sized regions ([`heap`]), together with the
//! synchronization primitives the allocator and the rest of the runtime are
//! built on: a futex-backed mutual-exclusion lock and a race-safe
//! lazy-initialization cell ([`sync`]).
//!
//! Everything that talks to the kernel does so through a system call.  The
//! library describes each call it makes as a value ([`syscalls`]): which
//! syscall number is invoked, and which arguments are passed.  The thin
//! runtime layer that actually performs the trap lives outside the library;
//! it executes the described call and hands the raw reply word back to the
//! decoders here.  The typed socket layer ([`sockets`]), the
//! environment-variable store ([`process`]), the stack-frame model
//! ([`backtrace`]) and the error codes ([`errors`]) are built on the same
//! split.

use vstd::prelude::*;

pub mod backtrace;
pub mod errors;
pub mod heap;
pub mod process;
pub mod sockets;
pub mod sync;
pub mod syscalls;

verus! {

/// Size of one page of memory granted by the operating system, in bytes.
pub const PAGE_SIZE: usize = 4096;

} // verus!
