//! Path-taking filesystem calls.

use vstd::prelude::*;
use vstd::string::StringSliceAdditionalSpecFns;

use crate::syscalls::{
    arg_is_bytes, SysArg, SyscallCaller, SYS_FS_CREATE, SYS_FS_CREATE_DIR, SYS_FS_OPEN_ALL,
    SYS_FS_REMOVE_PATH,
};

verus! {

/// The call that opens `path` with all permissions; the reply carries the
/// resource id.
pub fn open_all(path: &str) -> (r: SyscallCaller)
    ensures
        r.num == SYS_FS_OPEN_ALL,
        r.args@.len() == 1,
        arg_is_bytes(r.args@[0], path.spec_bytes()),
{
    let mut args: Vec<SysArg> = Vec::new();
    args.push(SysArg::Bytes(path_bytes(path)));
    SyscallCaller::new(SYS_FS_OPEN_ALL, args)
}

/// The call that creates the file at `path`.
pub fn create(path: &str) -> (r: SyscallCaller)
    ensures
        r.num == SYS_FS_CREATE,
        r.args@.len() == 1,
        arg_is_bytes(r.args@[0], path.spec_bytes()),
{
    let mut args: Vec<SysArg> = Vec::new();
    args.push(SysArg::Bytes(path_bytes(path)));
    SyscallCaller::new(SYS_FS_CREATE, args)
}

/// The call that creates the directory at `path`.
pub fn createdir(path: &str) -> (r: SyscallCaller)
    ensures
        r.num == SYS_FS_CREATE_DIR,
        r.args@.len() == 1,
        arg_is_bytes(r.args@[0], path.spec_bytes()),
{
    let mut args: Vec<SysArg> = Vec::new();
    args.push(SysArg::Bytes(path_bytes(path)));
    SyscallCaller::new(SYS_FS_CREATE_DIR, args)
}

/// The call that removes `path`.
pub fn remove_path(path: &str) -> (r: SyscallCaller)
    ensures
        r.num == SYS_FS_REMOVE_PATH,
        r.args@.len() == 1,
        arg_is_bytes(r.args@[0], path.spec_bytes()),
{
    let mut args: Vec<SysArg> = Vec::new();
    args.push(SysArg::Bytes(path_bytes(path)));
    SyscallCaller::new(SYS_FS_REMOVE_PATH, args)
}

/// Copies a path's UTF-8 bytes into an owned payload.
pub(crate) fn path_bytes(path: &str) -> (r: Vec<u8>)
    ensures
        r@ == path.spec_bytes(),
{
    let bytes = path.as_bytes();
    let mut v: Vec<u8> = Vec::new();
    let mut i: usize = 0;
    while i < bytes.len()
        invariant
            i <= bytes@.len(),
            v@ == bytes@.take(i as int),
            bytes@ == path.spec_bytes(),
        decreases bytes@.len() - i,
    {
        v.push(bytes[i]);
        proof {
            assert(v@ =~= bytes@.take(i as int + 1));
        }
        i = i + 1;
    }
    proof {
        assert(v@ =~= bytes@);
    }
    v
}

} // verus!
