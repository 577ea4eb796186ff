//! Calls on the current and child processes.

use vstd::prelude::*;
use vstd::string::StringSliceAdditionalSpecFns;

use crate::errors::{ErrorStatus, ERR_GENERIC};
use crate::syscalls::{
    arg_is_bytes, arg_is_imm, arg_is_out_buf, sys_result_unit, SysArg, SyscallCaller,
    SYS_P_CHDIR, SYS_P_EXIT, SYS_P_GETCWD, SYS_P_SBRK, SYS_P_TRY_CLEANUP, SYS_P_WAIT,
};

verus! {

/// The call that exits the process with `code`.  The kernel does not
/// return from it.
pub fn exit(code: usize) -> (r: SyscallCaller)
    ensures
        r.num == SYS_P_EXIT,
        r.args@.len() == 1,
        arg_is_imm(r.args@[0], code as int),
{
    let mut args: Vec<SysArg> = Vec::new();
    args.push(SysArg::Imm(code));
    SyscallCaller::new(SYS_P_EXIT, args)
}

/// The call that waits for child process `pid` to exit; the kernel
/// writes the child's exit code through the pointer.
pub fn wait(pid: u32) -> (r: SyscallCaller)
    ensures
        r.num == SYS_P_WAIT,
        r.args@.len() == 2,
        arg_is_imm(r.args@[0], pid as int),
        r.args@[1] is OutWord,
{
    let mut args: Vec<SysArg> = Vec::new();
    args.push(SysArg::Imm(pid as usize));
    args.push(SysArg::OutWord);
    SyscallCaller::new(SYS_P_WAIT, args)
}

/// The call that cleans up child process `pid` if it has already exited,
/// without waiting; the kernel writes the exit code through the pointer.
pub fn try_cleanup(pid: u32) -> (r: SyscallCaller)
    ensures
        r.num == SYS_P_TRY_CLEANUP,
        r.args@.len() == 2,
        arg_is_imm(r.args@[0], pid as int),
        r.args@[1] is OutWord,
{
    let mut args: Vec<SysArg> = Vec::new();
    args.push(SysArg::Imm(pid as usize));
    args.push(SysArg::OutWord);
    SyscallCaller::new(SYS_P_TRY_CLEANUP, args)
}

/// Interprets a cleanup reply together with the exit-code word the kernel
/// filled: success yields the exit code, the generic error means the
/// child has not exited yet, and any other error passes through.
pub fn try_cleanup_result(raw: usize, exit_code: usize) -> (r: Result<
    Option<usize>,
    ErrorStatus,
>)
    ensures
        !crate::syscalls::reply_is_err(raw) ==> r == Ok::<Option<usize>, ErrorStatus>(
            Some(exit_code),
        ),
        crate::syscalls::reply_is_err(raw) && crate::syscalls::reply_err_code(raw)
            == ERR_GENERIC ==> r == Ok::<Option<usize>, ErrorStatus>(None::<usize>),
        crate::syscalls::reply_is_err(raw) && crate::syscalls::reply_err_code(raw)
            != ERR_GENERIC ==> (r matches Err(e) && e.code == crate::syscalls::reply_err_code(
            raw,
        )),
{
    match sys_result_unit(raw) {
        Ok(()) => Ok(Some(exit_code)),
        Err(e) => {
            if e.code() == ERR_GENERIC {
                Ok(None)
            } else {
                Err(e)
            }
        },
    }
}

/// The call that changes the current working directory to `path`.
pub fn chdir(path: &str) -> (r: SyscallCaller)
    ensures
        r.num == SYS_P_CHDIR,
        r.args@.len() == 1,
        arg_is_bytes(r.args@[0], path.spec_bytes()),
{
    let mut args: Vec<SysArg> = Vec::new();
    args.push(SysArg::Bytes(crate::syscalls::fs::path_bytes(path)));
    SyscallCaller::new(SYS_P_CHDIR, args)
}

/// The call that copies the current working directory into a caller
/// buffer of `buf_len` bytes; the kernel writes the directory's true
/// length through the pointer.
pub fn getcwd(buf_len: usize) -> (r: SyscallCaller)
    ensures
        r.num == SYS_P_GETCWD,
        r.args@.len() == 2,
        arg_is_out_buf(r.args@[0], buf_len as int),
        r.args@[1] is OutWord,
{
    let mut args: Vec<SysArg> = Vec::new();
    args.push(SysArg::OutBuf(buf_len));
    args.push(SysArg::OutWord);
    SyscallCaller::new(SYS_P_GETCWD, args)
}

/// The call that moves the process data break by `size` bytes; the
/// kernel writes the new break address through the pointer.
pub fn sbrk(size: isize) -> (r: SyscallCaller)
    ensures
        r.num == SYS_P_SBRK,
        r.args@.len() == 2,
        arg_is_imm(r.args@[0], size as usize as int),
        r.args@[1] is OutWord,
{
    let mut args: Vec<SysArg> = Vec::new();
    args.push(SysArg::Imm(size as usize));
    args.push(SysArg::OutWord);
    SyscallCaller::new(SYS_P_SBRK, args)
}

} // verus!
