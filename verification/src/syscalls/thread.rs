//! Calls on the current and child threads.

use vstd::prelude::*;

use crate::syscalls::{
    arg_is_imm, SysArg, SyscallCaller, SYS_T_EXIT, SYS_T_SLEEP, SYS_T_WAIT, SYS_T_YIELD,
};

verus! {

/// The call that exits the current thread, carrying `code` in case it is
/// the last thread of the process.  The kernel does not return from it.
pub fn exit(code: usize) -> (r: SyscallCaller)
    ensures
        r.num == SYS_T_EXIT,
        r.args@.len() == 1,
        arg_is_imm(r.args@[0], code as int),
{
    let mut args: Vec<SysArg> = Vec::new();
    args.push(SysArg::Imm(code));
    SyscallCaller::new(SYS_T_EXIT, args)
}

/// The call that yields the processor to the next runnable thread.
pub fn yield_now() -> (r: SyscallCaller)
    ensures
        r.num == SYS_T_YIELD,
        r.args@.len() == 0,
{
    SyscallCaller::new(SYS_T_YIELD, Vec::new())
}

/// The call that waits for child thread `cid` to exit.
pub fn wait(cid: u32) -> (r: SyscallCaller)
    ensures
        r.num == SYS_T_WAIT,
        r.args@.len() == 1,
        arg_is_imm(r.args@[0], cid as int),
{
    let mut args: Vec<SysArg> = Vec::new();
    args.push(SysArg::Imm(cid as usize));
    SyscallCaller::new(SYS_T_WAIT, args)
}

/// The call that sleeps the current thread for `ms` milliseconds, or
/// `Err` when the count does not fit the register it is passed in.
pub fn sleep(ms: u64) -> (r: Result<SyscallCaller, ()>)
    ensures
        ms <= usize::MAX ==> (r matches Ok(c) && c.num == SYS_T_SLEEP && c.args@.len() == 1
            && arg_is_imm(c.args@[0], ms as int)),
        ms > usize::MAX ==> r is Err,
{
    if ms > usize::MAX as u64 {
        Err(())
    } else {
        let mut args: Vec<SysArg> = Vec::new();
        args.push(SysArg::Imm(ms as usize));
        Ok(SyscallCaller::new(SYS_T_SLEEP, args))
    }
}

} // verus!
