//! Error codes carried in syscall replies.
//!
//! The kernel reports failure by returning the negation of an error code in
//! the reply word; [`crate::syscalls::sys_result`] recovers the code.  The
//! library keeps the code itself, as a plain 16-bit value, so that contracts
//! can speak about exactly which error a reply denotes.

use vstd::prelude::*;

verus! {

/// Catch-all error when nothing more specific applies.
pub const ERR_GENERIC: u16 = 1;
/// A magic value or a structure is invalid.
pub const ERR_CORRUPTED: u16 = 4;
/// The given process id does not exist.
pub const ERR_INVALID_PID: u16 = 7;
/// The kernel could not grant more memory.
pub const ERR_OUT_OF_MEMORY: u16 = 0x17;
/// The operation timed out.
pub const ERR_TIMEOUT: u16 = 0x19;
/// The operation would block on a non-blocking resource.
pub const ERR_WOULD_BLOCK: u16 = 0x1F;
/// The other side of a connection closed it.
pub const ERR_CONNECTION_CLOSED: u16 = 0x20;

/// An error reported by the kernel in a syscall reply.
///
/// Wraps the raw 16-bit error code.  The named constants below give the codes
/// the library itself distinguishes; all other codes pass through unchanged.
#[derive(Clone, Copy, Debug, PartialEq, Eq, Structural)]
pub struct ErrorStatus {
    /// The raw error code, as encoded by the kernel.
    pub code: u16,
}

impl ErrorStatus {
    /// Wraps a raw kernel error code.
    pub fn from_code(code: u16) -> (r: ErrorStatus)
        ensures
            r.code == code,
    {
        ErrorStatus { code }
    }

    /// The raw kernel error code.
    pub fn code(&self) -> (r: u16)
        ensures
            r == self.code,
    {
        self.code
    }
}

} // verus!
