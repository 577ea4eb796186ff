//! Whole-machine calls: shutdown, reboot and uptime.

use vstd::prelude::*;

use crate::syscalls::{arg_is_imm, SysArg, SyscallCaller, SYS_REBOOT, SYS_SHUTDOWN, SYS_UPTIME};

verus! {

/// The call that shuts the machine down.  The kernel does not return
/// from it.
pub fn shutdown() -> (r: SyscallCaller)
    ensures
        r.num == SYS_SHUTDOWN,
        r.args@.len() == 0,
{
    SyscallCaller::new(SYS_SHUTDOWN, Vec::new())
}

/// The call that reboots the machine.  The kernel does not return from
/// it.
pub fn reboot() -> (r: SyscallCaller)
    ensures
        r.num == SYS_REBOOT,
        r.args@.len() == 0,
{
    SyscallCaller::new(SYS_REBOOT, Vec::new())
}

/// The call that asks for the system uptime in milliseconds; the kernel
/// writes it through the pointer.
pub fn uptime() -> (r: SyscallCaller)
    ensures
        r.num == SYS_UPTIME,
        r.args@.len() == 1,
        r.args@[0] is OutWord,
{
    let mut args: Vec<SysArg> = Vec::new();
    args.push(SysArg::OutWord);
    SyscallCaller::new(SYS_UPTIME, args)
}

} // verus!
