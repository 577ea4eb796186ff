//! The futex calls the lock in [`crate::sync::locks`] blocks and wakes
//! with.

use vstd::prelude::*;

use crate::syscalls::{arg_is_imm, SysArg, SyscallCaller, SYS_T_FUT_WAIT, SYS_T_FUT_WAKE};

verus! {

/// The call that blocks the current thread until the caller's futex word
/// differs from `val`, it is woken, or `timeout_ms` elapses.  The word's
/// address is the runtime's to fill in; the wait may end spuriously, so
/// callers re-check their state afterwards.
pub fn futex_wait(val: u32, timeout_ms: u64) -> (r: Result<SyscallCaller, ()>)
    ensures
        timeout_ms <= usize::MAX ==> (r matches Ok(c) && c.num == SYS_T_FUT_WAIT
            && c.args@.len() == 3 && c.args@[0] is FutexWord && arg_is_imm(c.args@[1], val as int)
            && arg_is_imm(c.args@[2], timeout_ms as int)),
        timeout_ms > usize::MAX ==> r is Err,
{
    if timeout_ms > usize::MAX as u64 {
        Err(())
    } else {
        let mut args: Vec<SysArg> = Vec::new();
        args.push(SysArg::FutexWord);
        args.push(SysArg::Imm(val as usize));
        args.push(SysArg::Imm(timeout_ms as usize));
        Ok(SyscallCaller::new(SYS_T_FUT_WAIT, args))
    }
}

/// The call that wakes up to `n` threads blocked on the caller's futex
/// word; the reply carries how many were woken.
pub fn futex_wake(n: usize) -> (r: SyscallCaller)
    ensures
        r.num == SYS_T_FUT_WAKE,
        r.args@.len() == 2,
        r.args@[0] is FutexWord,
        arg_is_imm(r.args@[1], n as int),
{
    let mut args: Vec<SysArg> = Vec::new();
    args.push(SysArg::FutexWord);
    args.push(SysArg::Imm(n));
    SyscallCaller::new(SYS_T_FUT_WAKE, args)
}

} // verus!
