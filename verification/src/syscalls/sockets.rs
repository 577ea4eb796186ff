//! Socket calls.  Addresses travel as the raw byte image of the kernel's
//! address structures; flag and kind values travel as their plain bit
//! patterns.

use vstd::prelude::*;

use crate::syscalls::{
    arg_is_bytes, arg_is_imm, arg_is_out_buf, SysArg, SyscallCaller, SYS_SOCK_ACCEPT,
    SYS_SOCK_BIND, SYS_SOCK_CONNECT, SYS_SOCK_CREATE, SYS_SOCK_LISTEN, SYS_SOCK_RECV_FROM,
    SYS_SOCK_SEND_TO,
};

verus! {

/// The call that creates a socket descriptor for domain `domain`, kind
/// bits `kind` and protocol `protocol`; the reply carries the resource
/// id.
pub fn create(domain: u8, kind: u16, protocol: u32) -> (r: SyscallCaller)
    ensures
        r.num == SYS_SOCK_CREATE,
        r.args@.len() == 3,
        arg_is_imm(r.args@[0], domain as int),
        arg_is_imm(r.args@[1], kind as int),
        arg_is_imm(r.args@[2], protocol as int),
{
    let mut args: Vec<SysArg> = Vec::new();
    args.push(SysArg::Imm(domain as usize));
    args.push(SysArg::Imm(kind as usize));
    args.push(SysArg::Imm(protocol as usize));
    SyscallCaller::new(SYS_SOCK_CREATE, args)
}

/// The call that binds socket `ri` to the address whose raw image is
/// `addr`.
pub fn bind(ri: u32, addr: Vec<u8>) -> (r: SyscallCaller)
    ensures
        r.num == SYS_SOCK_BIND,
        r.args@.len() == 2,
        arg_is_imm(r.args@[0], ri as int),
        arg_is_bytes(r.args@[1], addr@),
{
    let mut args: Vec<SysArg> = Vec::new();
    args.push(SysArg::Imm(ri as usize));
    args.push(SysArg::Bytes(addr));
    SyscallCaller::new(SYS_SOCK_BIND, args)
}

/// The call that lets server socket `ri` queue up to `backlog` pending
/// connections.
pub fn listen(ri: u32, backlog: usize) -> (r: SyscallCaller)
    ensures
        r.num == SYS_SOCK_LISTEN,
        r.args@.len() == 2,
        arg_is_imm(r.args@[0], ri as int),
        arg_is_imm(r.args@[1], backlog as int),
{
    let mut args: Vec<SysArg> = Vec::new();
    args.push(SysArg::Imm(ri as usize));
    args.push(SysArg::Imm(backlog));
    SyscallCaller::new(SYS_SOCK_LISTEN, args)
}

/// The call that accepts a pending connection on server socket `ri`,
/// without asking for the peer address; the reply carries the
/// connection's resource id.
pub fn accept(ri: u32) -> (r: SyscallCaller)
    ensures
        r.num == SYS_SOCK_ACCEPT,
        r.args@.len() == 2,
        arg_is_imm(r.args@[0], ri as int),
        arg_is_imm(r.args@[1], 0),
{
    let mut args: Vec<SysArg> = Vec::new();
    args.push(SysArg::Imm(ri as usize));
    args.push(SysArg::Imm(0));
    SyscallCaller::new(SYS_SOCK_ACCEPT, args)
}

/// The call that connects socket `ri` to the server bound at the address
/// whose raw image is `addr`.
pub fn connect(ri: u32, addr: Vec<u8>) -> (r: SyscallCaller)
    ensures
        r.num == SYS_SOCK_CONNECT,
        r.args@.len() == 2,
        arg_is_imm(r.args@[0], ri as int),
        arg_is_bytes(r.args@[1], addr@),
{
    let mut args: Vec<SysArg> = Vec::new();
    args.push(SysArg::Imm(ri as usize));
    args.push(SysArg::Bytes(addr));
    SyscallCaller::new(SYS_SOCK_CONNECT, args)
}

/// The call that sends `data` through socket `ri` with flag bits
/// `flags`, either to the connected peer or to the address whose raw
/// image is given; the reply carries the number of bytes sent.
pub fn send_to(ri: u32, data: &[u8], flags: u32, addr: Option<Vec<u8>>) -> (r: SyscallCaller)
    ensures
        r.num == SYS_SOCK_SEND_TO,
        r.args@.len() == 4,
        arg_is_imm(r.args@[0], ri as int),
        arg_is_bytes(r.args@[1], data@),
        arg_is_imm(r.args@[2], flags as int),
        match addr {
            Some(a) => arg_is_bytes(r.args@[3], a@),
            None => arg_is_imm(r.args@[3], 0),
        },
{
    let mut args: Vec<SysArg> = Vec::new();
    args.push(SysArg::Imm(ri as usize));
    args.push(SysArg::Bytes(crate::syscalls::io::payload_bytes(data)));
    args.push(SysArg::Imm(flags as usize));
    match addr {
        Some(a) => {
            args.push(SysArg::Bytes(a));
        },
        None => {
            args.push(SysArg::Imm(0));
        },
    }
    SyscallCaller::new(SYS_SOCK_SEND_TO, args)
}

/// The call that receives up to `buf_len` bytes from socket `ri` with
/// flag bits `flags`, storing the sender's address when `want_addr`; the
/// reply carries the number of bytes received.
pub fn recv_from(ri: u32, buf_len: usize, flags: u32, want_addr: bool) -> (r: SyscallCaller)
    ensures
        r.num == SYS_SOCK_RECV_FROM,
        r.args@.len() == 4,
        arg_is_imm(r.args@[0], ri as int),
        arg_is_out_buf(r.args@[1], buf_len as int),
        arg_is_imm(r.args@[2], flags as int),
        want_addr ==> r.args@[3] is OutWord,
        !want_addr ==> arg_is_imm(r.args@[3], 0),
{
    let mut args: Vec<SysArg> = Vec::new();
    args.push(SysArg::Imm(ri as usize));
    args.push(SysArg::OutBuf(buf_len));
    args.push(SysArg::Imm(flags as usize));
    if want_addr {
        args.push(SysArg::OutWord);
    } else {
        args.push(SysArg::Imm(0));
    }
    SyscallCaller::new(SYS_SOCK_RECV_FROM, args)
}

} // verus!
