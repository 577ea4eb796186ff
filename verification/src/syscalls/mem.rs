//! Shared-memory calls.  The plain page grants the allocator feeds on are
//! modelled inside [`crate::heap`] itself.

use vstd::prelude::*;

use crate::syscalls::{arg_is_imm, SysArg, SyscallCaller, SYS_MEM_SHM_CREATE, SYS_MEM_SHM_OPEN};

verus! {

/// The call that creates a shared-memory descriptor over `page_count`
/// pages with the raw flag bits `flags`; the kernel writes the key and a
/// resource id through the pointers.
pub fn shm_create(page_count: usize, flags: u32) -> (r: SyscallCaller)
    ensures
        r.num == SYS_MEM_SHM_CREATE,
        r.args@.len() == 4,
        arg_is_imm(r.args@[0], page_count as int),
        arg_is_imm(r.args@[1], flags as int),
        r.args@[2] is OutWord,
        r.args@[3] is OutWord,
{
    let mut args: Vec<SysArg> = Vec::new();
    args.push(SysArg::Imm(page_count));
    args.push(SysArg::Imm(flags as usize));
    args.push(SysArg::OutWord);
    args.push(SysArg::OutWord);
    SyscallCaller::new(SYS_MEM_SHM_CREATE, args)
}

/// The call that opens the shared-memory descriptor behind `shm_key` with
/// the raw flag bits `flags`; the kernel writes the resource id through
/// the pointer.
pub fn shm_open(shm_key: usize, flags: u32) -> (r: SyscallCaller)
    ensures
        r.num == SYS_MEM_SHM_OPEN,
        r.args@.len() == 3,
        arg_is_imm(r.args@[0], shm_key as int),
        arg_is_imm(r.args@[1], flags as int),
        r.args@[2] is OutWord,
{
    let mut args: Vec<SysArg> = Vec::new();
    args.push(SysArg::Imm(shm_key));
    args.push(SysArg::Imm(flags as usize));
    args.push(SysArg::OutWord);
    SyscallCaller::new(SYS_MEM_SHM_OPEN, args)
}

} // verus!
