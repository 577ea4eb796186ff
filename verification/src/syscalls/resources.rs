//! Calls on resource ids as such: closing and duplicating.

use vstd::prelude::*;

use crate::syscalls::{arg_is_imm, SysArg, SyscallCaller, SYS_R_CLONE, SYS_R_DESTROY};

verus! {

/// The call that destroys (closes) resource `ri`.
pub fn destroy_resource(ri: u32) -> (r: SyscallCaller)
    ensures
        r.num == SYS_R_DESTROY,
        r.args@.len() == 1,
        arg_is_imm(r.args@[0], ri as int),
{
    let mut args: Vec<SysArg> = Vec::new();
    args.push(SysArg::Imm(ri as usize));
    SyscallCaller::new(SYS_R_DESTROY, args)
}

/// The call that duplicates resource `ri`; the reply carries the new
/// resource id.
pub fn dup(ri: u32) -> (r: SyscallCaller)
    ensures
        r.num == SYS_R_CLONE,
        r.args@.len() == 1,
        arg_is_imm(r.args@[0], ri as int),
{
    let mut args: Vec<SysArg> = Vec::new();
    args.push(SysArg::Imm(ri as usize));
    SyscallCaller::new(SYS_R_CLONE, args)
}

} // verus!
