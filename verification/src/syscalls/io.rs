//! Read, write and device-command calls on open resources.

use vstd::prelude::*;

use crate::errors::ErrorStatus;
use crate::syscalls::{
    arg_is_bytes, arg_is_imm, arg_is_out_buf, sys_result, SysArg, SyscallCaller, SYS_F_DIR_ITER_OPEN,
    SYS_F_SIZE, SYS_IO_COMMAND, SYS_IO_READ, SYS_IO_SYNC, SYS_IO_TRUNCATE, SYS_IO_WRITE,
    SYS_VTTY_ALLOC,
};

verus! {

/// The call that opens a directory iterator over directory resource
/// `dir_ri`; the reply carries the iterator's resource id.
pub fn diriter_open(dir_ri: u32) -> (r: SyscallCaller)
    ensures
        r.num == SYS_F_DIR_ITER_OPEN,
        r.args@.len() == 1,
        arg_is_imm(r.args@[0], dir_ri as int),
{
    let mut args: Vec<SysArg> = Vec::new();
    args.push(SysArg::Imm(dir_ri as usize));
    SyscallCaller::new(SYS_F_DIR_ITER_OPEN, args)
}

/// The call that sends device command `cmd` with argument `arg` to
/// resource `ri`.
pub fn io_command(ri: u32, cmd: u16, arg: u64) -> (r: SyscallCaller)
    requires
        arg <= usize::MAX,
    ensures
        r.num == SYS_IO_COMMAND,
        r.args@.len() == 3,
        arg_is_imm(r.args@[0], ri as int),
        arg_is_imm(r.args@[1], cmd as int),
        arg_is_imm(r.args@[2], arg as int),
{
    let mut args: Vec<SysArg> = Vec::new();
    args.push(SysArg::Imm(ri as usize));
    args.push(SysArg::Imm(cmd as usize));
    args.push(SysArg::Imm(arg as usize));
    SyscallCaller::new(SYS_IO_COMMAND, args)
}

/// The call that truncates the file behind `fd` to `len` bytes.
pub fn truncate(fd: u32, len: usize) -> (r: SyscallCaller)
    ensures
        r.num == SYS_IO_TRUNCATE,
        r.args@.len() == 2,
        arg_is_imm(r.args@[0], fd as int),
        arg_is_imm(r.args@[1], len as int),
{
    let mut args: Vec<SysArg> = Vec::new();
    args.push(SysArg::Imm(fd as usize));
    args.push(SysArg::Imm(len as usize));
    SyscallCaller::new(SYS_IO_TRUNCATE, args)
}

/// The call that asks for the size of the file behind `fd`; the reply
/// carries the size.
pub fn fsize(fd: u32) -> (r: SyscallCaller)
    ensures
        r.num == SYS_F_SIZE,
        r.args@.len() == 1,
        arg_is_imm(r.args@[0], fd as int),
{
    let mut args: Vec<SysArg> = Vec::new();
    args.push(SysArg::Imm(fd as usize));
    SyscallCaller::new(SYS_F_SIZE, args)
}

/// The call that flushes pending writes on resource `ri`.
pub fn sync(ri: u32) -> (r: SyscallCaller)
    ensures
        r.num == SYS_IO_SYNC,
        r.args@.len() == 1,
        arg_is_imm(r.args@[0], ri as int),
{
    let mut args: Vec<SysArg> = Vec::new();
    args.push(SysArg::Imm(ri as usize));
    SyscallCaller::new(SYS_IO_SYNC, args)
}

/// The call that reads up to `len` bytes from resource `fd` at `offset`
/// into a caller buffer; the reply carries the number of bytes read.
pub fn read(fd: u32, offset: isize, len: usize) -> (r: SyscallCaller)
    ensures
        r.num == SYS_IO_READ,
        r.args@.len() == 3,
        arg_is_imm(r.args@[0], fd as int),
        arg_is_imm(r.args@[1], offset as usize as int),
        arg_is_out_buf(r.args@[2], len as int),
{
    let mut args: Vec<SysArg> = Vec::new();
    args.push(SysArg::Imm(fd as usize));
    args.push(SysArg::Imm(offset as usize));
    args.push(SysArg::OutBuf(len));
    SyscallCaller::new(SYS_IO_READ, args)
}

/// The call that writes `data` to resource `fd` at `offset`; the reply
/// carries the number of bytes written.
pub fn write(fd: u32, offset: isize, data: &[u8]) -> (r: SyscallCaller)
    ensures
        r.num == SYS_IO_WRITE,
        r.args@.len() == 3,
        arg_is_imm(r.args@[0], fd as int),
        arg_is_imm(r.args@[1], offset as usize as int),
        arg_is_bytes(r.args@[2], data@),
{
    let mut args: Vec<SysArg> = Vec::new();
    args.push(SysArg::Imm(fd as usize));
    args.push(SysArg::Imm(offset as usize));
    args.push(SysArg::Bytes(payload_bytes(data)));
    SyscallCaller::new(SYS_IO_WRITE, args)
}

/// The call that allocates a fresh pair of virtual terminal interfaces;
/// the kernel writes the two resource ids through the pointers.
pub fn vtty_alloc() -> (r: SyscallCaller)
    ensures
        r.num == SYS_VTTY_ALLOC,
        r.args@.len() == 3,
        r.args@[0] is OutWord,
        r.args@[1] is OutWord,
        arg_is_imm(r.args@[2], 0),
{
    let mut args: Vec<SysArg> = Vec::new();
    args.push(SysArg::OutWord);
    args.push(SysArg::OutWord);
    args.push(SysArg::Imm(0));
    SyscallCaller::new(SYS_VTTY_ALLOC, args)
}

/// Interprets the reply of a read or write: on success, the count of
/// bytes moved, which the kernel keeps within the buffer handed to it.
pub fn io_count_result(raw: usize, buf_len: usize) -> (r: Result<usize, ErrorStatus>)
    ensures
        !crate::syscalls::reply_is_err(raw) && raw <= buf_len ==> r == Ok::<
            usize,
            ErrorStatus,
        >(raw),
        crate::syscalls::reply_is_err(raw) ==> (r matches Err(e) && e.code
            == crate::syscalls::reply_err_code(raw)),
{
    match sys_result(raw) {
        Ok(n) => {
            if n <= buf_len {
                Ok(n)
            } else {
                Err(ErrorStatus::from_code(crate::errors::ERR_CORRUPTED))
            }
        },
        Err(e) => Err(e),
    }
}

/// Copies a byte slice into an owned payload.
pub(crate) fn payload_bytes(data: &[u8]) -> (r: Vec<u8>)
    ensures
        r@ == data@,
{
    let mut v: Vec<u8> = Vec::new();
    let mut i: usize = 0;
    while i < data.len()
        invariant
            i <= data@.len(),
            v@ == data@.take(i as int),
        decreases data@.len() - i,
    {
        v.push(data[i]);
        proof {
            assert(v@ =~= data@.take(i as int + 1));
        }
        i = i + 1;
    }
    proof {
        assert(v@ =~= data@);
    }
    v
}

} // verus!
