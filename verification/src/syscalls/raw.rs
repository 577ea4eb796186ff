//! The flat spelling of the syscall surface: every operation under one
//! roof, under the names the first generation of the runtime used.  Each
//! function builds the same call as its counterpart in the sibling
//! modules.

use vstd::prelude::*;
use vstd::string::StringSliceAdditionalSpecFns;

use crate::syscalls::{
    arg_is_bytes, arg_is_imm, arg_is_out_buf, fs, io, misc, process, resources, thread, SyscallCaller,
    SYS_FS_CREATE, SYS_FS_CREATE_DIR, SYS_FS_OPEN_ALL, SYS_FS_REMOVE_PATH, SYS_F_DIR_ITER_OPEN,
    SYS_F_SIZE, SYS_IO_READ, SYS_IO_SYNC, SYS_IO_TRUNCATE, SYS_IO_WRITE, SYS_P_CHDIR, SYS_P_EXIT,
    SYS_P_SBRK, SYS_P_WAIT, SYS_REBOOT, SYS_R_CLONE, SYS_R_DESTROY, SYS_SHUTDOWN, SYS_T_EXIT,
    SYS_T_WAIT, SYS_T_YIELD, SYS_UPTIME,
};

verus! {

/// The call that opens `path` with all permissions.
pub fn open_all(path: &str) -> (r: SyscallCaller)
    ensures
        r.num == SYS_FS_OPEN_ALL,
        r.args@.len() == 1,
        arg_is_bytes(r.args@[0], path.spec_bytes()),
{
    fs::open_all(path)
}

/// The call that creates the file at `path`.
pub fn create(path: &str) -> (r: SyscallCaller)
    ensures
        r.num == SYS_FS_CREATE,
        r.args@.len() == 1,
        arg_is_bytes(r.args@[0], path.spec_bytes()),
{
    fs::create(path)
}

/// The call that creates the directory at `path`.
pub fn createdir(path: &str) -> (r: SyscallCaller)
    ensures
        r.num == SYS_FS_CREATE_DIR,
        r.args@.len() == 1,
        arg_is_bytes(r.args@[0], path.spec_bytes()),
{
    fs::createdir(path)
}

/// The call that removes `path`.
pub fn remove_path(path: &str) -> (r: SyscallCaller)
    ensures
        r.num == SYS_FS_REMOVE_PATH,
        r.args@.len() == 1,
        arg_is_bytes(r.args@[0], path.spec_bytes()),
{
    fs::remove_path(path)
}

/// The call that destroys (closes) resource `ri`.
pub fn destroy_resource(ri: u32) -> (r: SyscallCaller)
    ensures
        r.num == SYS_R_DESTROY,
        r.args@.len() == 1,
        arg_is_imm(r.args@[0], ri as int),
{
    resources::destroy_resource(ri)
}

/// The call that opens a directory iterator over directory resource
/// `dir_ri`.
pub fn diriter_open(dir_ri: u32) -> (r: SyscallCaller)
    ensures
        r.num == SYS_F_DIR_ITER_OPEN,
        r.args@.len() == 1,
        arg_is_imm(r.args@[0], dir_ri as int),
{
    io::diriter_open(dir_ri)
}

/// The call that writes `data` to resource `fd` at `offset`.
pub fn write(fd: u32, offset: isize, data: &[u8]) -> (r: SyscallCaller)
    ensures
        r.num == SYS_IO_WRITE,
        r.args@.len() == 3,
        arg_is_imm(r.args@[0], fd as int),
        arg_is_imm(r.args@[1], offset as usize as int),
        arg_is_bytes(r.args@[2], data@),
{
    io::write(fd, offset, data)
}

/// The call that truncates the file behind `fd` to `len` bytes.
pub fn truncate(fd: u32, len: usize) -> (r: SyscallCaller)
    ensures
        r.num == SYS_IO_TRUNCATE,
        r.args@.len() == 2,
        arg_is_imm(r.args@[0], fd as int),
        arg_is_imm(r.args@[1], len as int),
{
    io::truncate(fd, len)
}

/// The call that asks for the size of the file behind `fd`.
pub fn fsize(fd: u32) -> (r: SyscallCaller)
    ensures
        r.num == SYS_F_SIZE,
        r.args@.len() == 1,
        arg_is_imm(r.args@[0], fd as int),
{
    io::fsize(fd)
}

/// The call that reads up to `len` bytes from resource `fd` at `offset`.
pub fn read(fd: u32, offset: isize, len: usize) -> (r: SyscallCaller)
    ensures
        r.num == SYS_IO_READ,
        r.args@.len() == 3,
        arg_is_imm(r.args@[0], fd as int),
        arg_is_imm(r.args@[1], offset as usize as int),
        arg_is_out_buf(r.args@[2], len as int),
{
    io::read(fd, offset, len)
}

/// The call that flushes pending writes on resource `ri`.
pub fn sync(ri: u32) -> (r: SyscallCaller)
    ensures
        r.num == SYS_IO_SYNC,
        r.args@.len() == 1,
        arg_is_imm(r.args@[0], ri as int),
{
    io::sync(ri)
}

/// The call that duplicates resource `ri`.
pub fn dup(ri: u32) -> (r: SyscallCaller)
    ensures
        r.num == SYS_R_CLONE,
        r.args@.len() == 1,
        arg_is_imm(r.args@[0], ri as int),
{
    resources::dup(ri)
}

/// The call that moves the process data break by `size` bytes.
pub fn sbrk(size: isize) -> (r: SyscallCaller)
    ensures
        r.num == SYS_P_SBRK,
        r.args@.len() == 2,
        arg_is_imm(r.args@[0], size as usize as int),
        r.args@[1] is OutWord,
{
    process::sbrk(size)
}

/// The call that exits the process with `code`.
pub fn process_exit(code: usize) -> (r: SyscallCaller)
    ensures
        r.num == SYS_P_EXIT,
        r.args@.len() == 1,
        arg_is_imm(r.args@[0], code as int),
{
    process::exit(code)
}

/// The call that exits the current thread.
pub fn thread_exit(code: usize) -> (r: SyscallCaller)
    ensures
        r.num == SYS_T_EXIT,
        r.args@.len() == 1,
        arg_is_imm(r.args@[0], code as int),
{
    thread::exit(code)
}

/// The call that yields the processor.
pub fn yield_now() -> (r: SyscallCaller)
    ensures
        r.num == SYS_T_YIELD,
        r.args@.len() == 0,
{
    thread::yield_now()
}

/// The call that waits for child process `pid` to exit.
pub fn process_wait(pid: u32) -> (r: SyscallCaller)
    ensures
        r.num == SYS_P_WAIT,
        r.args@.len() == 2,
        arg_is_imm(r.args@[0], pid as int),
        r.args@[1] is OutWord,
{
    process::wait(pid)
}

/// The call that waits for child thread `cid` to exit.
pub fn thread_wait(cid: u32) -> (r: SyscallCaller)
    ensures
        r.num == SYS_T_WAIT,
        r.args@.len() == 1,
        arg_is_imm(r.args@[0], cid as int),
{
    thread::wait(cid)
}

/// The call that changes the current working directory to `path`.
pub fn chdir(path: &str) -> (r: SyscallCaller)
    ensures
        r.num == SYS_P_CHDIR,
        r.args@.len() == 1,
        arg_is_bytes(r.args@[0], path.spec_bytes()),
{
    process::chdir(path)
}

/// The call that shuts the machine down.
pub fn shutdown() -> (r: SyscallCaller)
    ensures
        r.num == SYS_SHUTDOWN,
        r.args@.len() == 0,
{
    misc::shutdown()
}

/// The call that reboots the machine.
pub fn reboot() -> (r: SyscallCaller)
    ensures
        r.num == SYS_REBOOT,
        r.args@.len() == 0,
{
    misc::reboot()
}

/// The call that asks for the system uptime in milliseconds.
pub fn uptime() -> (r: SyscallCaller)
    ensures
        r.num == SYS_UPTIME,
        r.args@.len() == 1,
        r.args@[0] is OutWord,
{
    misc::uptime()
}

} // verus!
