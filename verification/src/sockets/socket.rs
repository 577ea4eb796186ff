//! The generic socket type and its builder.
//!
//! A socket is a kernel resource identified by a resource id; everything
//! the library does with one is a described call from
//! [`crate::syscalls::sockets`].  Domains and kinds travel over the ABI
//! as plain numbers; the conversions below state those numbers exactly.

use vstd::prelude::*;

use crate::syscalls::{sockets, SyscallCaller};
use crate::syscalls::{arg_is_imm, SYS_IO_COMMAND, SYS_IO_READ, SYS_IO_WRITE};

verus! {

/// Raw domain number of a local (Unix) socket.
pub const DOMAIN_LOCAL: u8 = 0;
/// Raw domain number of an IPv4 socket.
pub const DOMAIN_INETV4: u8 = 1;

/// Raw kind bits of a stream socket.
pub const KIND_STREAM: u16 = 0;
/// Raw kind bits of a sequenced-packet socket.
pub const KIND_SEQPACKET: u16 = 1;
/// Raw kind bits of a datagram socket.
pub const KIND_DGRAM: u16 = 2;
/// Kind flag marking the socket non-blocking.
pub const KIND_NON_BLOCKING_FLAG: u16 = 0x8000;

/// A per-socket option set through the device-command call; the option's
/// code is the command number.
#[derive(Clone, Copy, Debug, PartialEq, Eq, Structural)]
pub enum SocketOpt {
    /// Whether or not the socket can block.
    Blocking,
    /// Milliseconds a read may wait.
    ReadTimeout,
    /// Milliseconds a write may wait.
    WriteTimeout,
    /// The time-to-live field of outgoing packets.
    IpTTL,
    /// Broadcast permission.
    IpBroadcast,
    /// The pending socket error.
    SocketError,
}

impl SocketOpt {
    /// The option's command number on the ABI.
    pub fn code(&self) -> (r: u16)
        ensures
            r == self.code_spec(),
    {
        match self {
            SocketOpt::Blocking => 0,
            SocketOpt::ReadTimeout => 1,
            SocketOpt::WriteTimeout => 2,
            SocketOpt::IpTTL => 3,
            SocketOpt::IpBroadcast => 4,
            SocketOpt::SocketError => 5,
        }
    }

    /// The option's command number.
    pub open spec fn code_spec(&self) -> u16 {
        match self {
            SocketOpt::Blocking => 0,
            SocketOpt::ReadTimeout => 1,
            SocketOpt::WriteTimeout => 2,
            SocketOpt::IpTTL => 3,
            SocketOpt::IpBroadcast => 4,
            SocketOpt::SocketError => 5,
        }
    }
}

/// The kind of a socket.
#[derive(Clone, Copy, Debug, PartialEq, Eq, Structural)]
pub enum SocketKind {
    /// Sequenced, reliable packets.
    SeqPacket,
    /// A byte stream.
    Stream,
    /// Unordered datagrams.
    Datagram,
}

impl SocketKind {
    /// The kind's raw bits on the ABI, without flags.
    pub fn into_raw(self) -> (r: u16)
        ensures
            r == self.raw_spec(),
    {
        match self {
            SocketKind::Datagram => KIND_DGRAM,
            SocketKind::Stream => KIND_STREAM,
            SocketKind::SeqPacket => KIND_SEQPACKET,
        }
    }

    /// The kind's raw bits, without flags.
    pub open spec fn raw_spec(self) -> u16 {
        match self {
            SocketKind::Datagram => KIND_DGRAM,
            SocketKind::Stream => KIND_STREAM,
            SocketKind::SeqPacket => KIND_SEQPACKET,
        }
    }

    /// Decodes raw kind bits into the kind and whether the socket blocks:
    /// the non-blocking flag is masked off, the rest selects the kind.
    /// `None` for the all-ones pattern that stands for "no kind", or any
    /// unknown kind number.
    pub fn from_raw(raw: u16) -> (r: Option<(SocketKind, bool)>)
        ensures
            raw == u16::MAX ==> r is None,
            raw != u16::MAX ==> {
                let kind = raw & !KIND_NON_BLOCKING_FLAG;
                let can_block = raw & KIND_NON_BLOCKING_FLAG == 0;
                &&& kind == KIND_STREAM ==> r == Some((SocketKind::Stream, can_block))
                &&& kind == KIND_SEQPACKET ==> r == Some((SocketKind::SeqPacket, can_block))
                &&& kind == KIND_DGRAM ==> r == Some((SocketKind::Datagram, can_block))
                &&& (kind != KIND_STREAM && kind != KIND_SEQPACKET && kind != KIND_DGRAM)
                    ==> r is None
            },
    {
        if raw == u16::MAX {
            return None;
        }
        let kind = raw & !KIND_NON_BLOCKING_FLAG;
        let can_block = raw & KIND_NON_BLOCKING_FLAG == 0;
        if kind == KIND_STREAM {
            Some((SocketKind::Stream, can_block))
        } else if kind == KIND_SEQPACKET {
            Some((SocketKind::SeqPacket, can_block))
        } else if kind == KIND_DGRAM {
            Some((SocketKind::Datagram, can_block))
        } else {
            None
        }
    }
}

/// The domain of a socket.
#[derive(Clone, Copy, Debug, PartialEq, Eq, Structural)]
pub enum SocketDomain {
    /// Local (Unix) domain.
    Local,
    /// Internet IPv4 domain.
    Ipv4,
}

impl SocketDomain {
    /// The domain's raw number on the ABI.
    pub fn into_raw(self) -> (r: u8)
        ensures
            r == self.raw_spec(),
    {
        match self {
            SocketDomain::Ipv4 => DOMAIN_INETV4,
            SocketDomain::Local => DOMAIN_LOCAL,
        }
    }

    /// The domain's raw number.
    pub open spec fn raw_spec(self) -> u8 {
        match self {
            SocketDomain::Ipv4 => DOMAIN_INETV4,
            SocketDomain::Local => DOMAIN_LOCAL,
        }
    }

    /// Decodes a raw domain number; the all-ones pattern stands for "no
    /// domain".
    pub fn from_raw(raw: u8) -> (r: Option<SocketDomain>)
        ensures
            raw == DOMAIN_LOCAL ==> r == Some(SocketDomain::Local),
            raw == DOMAIN_INETV4 ==> r == Some(SocketDomain::Ipv4),
            raw != DOMAIN_LOCAL && raw != DOMAIN_INETV4 ==> r is None,
    {
        if raw == DOMAIN_LOCAL {
            Some(SocketDomain::Local)
        } else if raw == DOMAIN_INETV4 {
            Some(SocketDomain::Ipv4)
        } else {
            None
        }
    }
}

/// A socket: a kernel resource id.
#[derive(Debug, PartialEq, Eq, Structural)]
pub struct Socket {
    ri: u32,
}

/// Settings a socket is created with.
#[derive(Clone, Copy, Debug, PartialEq, Eq, Structural)]
pub struct SocketBuilder {
    /// The socket's domain.
    pub domain: SocketDomain,
    /// The socket's kind.
    pub kind: SocketKind,
    /// The socket's protocol number.
    pub protocol: u32,
    /// Whether operations on the socket may block.
    pub can_block: bool,
}

impl SocketBuilder {
    /// A builder for a blocking socket of the given domain, kind and
    /// protocol.
    pub fn new(domain: SocketDomain, kind: SocketKind, protocol: u32) -> (r: Self)
        ensures
            r == (SocketBuilder { domain, kind, protocol, can_block: true }),
    {
        SocketBuilder { domain, kind, protocol, can_block: true }
    }

    /// Marks the socket non-blocking (or blocking again).
    pub fn set_non_blocking(&mut self, non_blocking: bool)
        ensures
            *final(self) == (SocketBuilder { can_block: !non_blocking, ..*old(self) }),
    {
        self.can_block = !non_blocking;
    }

    /// Replaces the kind.
    pub fn set_kind(&mut self, kind: SocketKind)
        ensures
            *final(self) == (SocketBuilder { kind, ..*old(self) }),
    {
        self.kind = kind;
    }

    /// Replaces the protocol number.
    pub fn set_protocol(&mut self, protocol: u32)
        ensures
            *final(self) == (SocketBuilder { protocol, ..*old(self) }),
    {
        self.protocol = protocol;
    }

    /// The kind bits the creation call carries: the kind's number, with
    /// the non-blocking flag folded in.
    pub open spec fn raw_kind_spec(self) -> u16 {
        if self.can_block {
            self.kind.raw_spec()
        } else {
            self.kind.raw_spec() | KIND_NON_BLOCKING_FLAG
        }
    }

    /// The call that creates the described socket; the reply carries the
    /// socket's resource id.
    pub fn build(self) -> (r: SyscallCaller)
        ensures
            r.num == crate::syscalls::SYS_SOCK_CREATE,
            r.args@.len() == 3,
            arg_is_imm(r.args@[0], self.domain.raw_spec() as int),
            arg_is_imm(r.args@[1], self.raw_kind_spec() as int),
            arg_is_imm(r.args@[2], self.protocol as int),
    {
        let kind = if self.can_block {
            self.kind.into_raw()
        } else {
            self.kind.into_raw() | KIND_NON_BLOCKING_FLAG
        };
        sockets::create(self.domain.into_raw(), kind, self.protocol)
    }
}

impl Socket {
    /// The socket's resource id.
    pub closed spec fn ri_spec(&self) -> u32 {
        self.ri
    }

    /// Wraps the resource id of an already-created socket.
    pub fn from_ri(ri: u32) -> (r: Self)
        ensures
            r.ri_spec() == ri,
    {
        Socket { ri }
    }

    /// A builder for a blocking socket of the given domain, kind and
    /// protocol.
    pub fn builder(domain: SocketDomain, kind: SocketKind, protocol: u32) -> (r: SocketBuilder)
        ensures
            r == (SocketBuilder { domain, kind, protocol, can_block: true }),
    {
        SocketBuilder::new(domain, kind, protocol)
    }

    /// The socket's raw resource id.
    pub fn ri(&self) -> (r: u32)
        ensures
            r == self.ri_spec(),
    {
        self.ri
    }

    /// The call that lets this socket queue `backlog` pending
    /// connections.
    pub fn listen(&self, backlog: usize) -> (r: SyscallCaller)
        ensures
            r.num == crate::syscalls::SYS_SOCK_LISTEN,
            r.args@.len() == 2,
            arg_is_imm(r.args@[0], self.ri_spec() as int),
            arg_is_imm(r.args@[1], backlog as int),
    {
        sockets::listen(self.ri, backlog)
    }

    /// The call that binds this socket to the address whose raw image is
    /// `addr`.
    pub fn bind(&self, addr: Vec<u8>) -> (r: SyscallCaller)
        ensures
            r.num == crate::syscalls::SYS_SOCK_BIND,
            r.args@.len() == 2,
            arg_is_imm(r.args@[0], self.ri_spec() as int),
            crate::syscalls::arg_is_bytes(r.args@[1], addr@),
    {
        sockets::bind(self.ri, addr)
    }

    /// The call that connects this socket to the server bound at the
    /// address whose raw image is `addr`.
    pub fn connect(&self, addr: Vec<u8>) -> (r: SyscallCaller)
        ensures
            r.num == crate::syscalls::SYS_SOCK_CONNECT,
            r.args@.len() == 2,
            arg_is_imm(r.args@[0], self.ri_spec() as int),
            crate::syscalls::arg_is_bytes(r.args@[1], addr@),
    {
        sockets::connect(self.ri, addr)
    }

    /// The call that accepts a pending connection; the reply carries the
    /// connection's resource id.
    pub fn accept(&self) -> (r: SyscallCaller)
        ensures
            r.num == crate::syscalls::SYS_SOCK_ACCEPT,
            r.args@.len() == 2,
            arg_is_imm(r.args@[0], self.ri_spec() as int),
            arg_is_imm(r.args@[1], 0),
    {
        sockets::accept(self.ri)
    }

    /// The call that reads up to `len` bytes from this socket.
    pub fn read(&self, len: usize) -> (r: SyscallCaller)
        ensures
            r.num == SYS_IO_READ,
            r.args@.len() == 3,
            arg_is_imm(r.args@[0], self.ri_spec() as int),
            arg_is_imm(r.args@[1], 0),
            crate::syscalls::arg_is_out_buf(r.args@[2], len as int),
    {
        crate::syscalls::io::read(self.ri, 0, len)
    }

    /// The call that writes `data` to this socket.
    pub fn write(&self, data: &[u8]) -> (r: SyscallCaller)
        ensures
            r.num == SYS_IO_WRITE,
            r.args@.len() == 3,
            arg_is_imm(r.args@[0], self.ri_spec() as int),
            arg_is_imm(r.args@[1], 0),
            crate::syscalls::arg_is_bytes(r.args@[2], data@),
    {
        crate::syscalls::io::write(self.ri, 0, data)
    }

    /// The call that sends device command `cmd` with argument `arg` to
    /// this socket.
    pub fn io_cmd(&self, cmd: u16, arg: u64) -> (r: SyscallCaller)
        requires
            arg <= usize::MAX,
        ensures
            r.num == SYS_IO_COMMAND,
            r.args@.len() == 3,
            arg_is_imm(r.args@[0], self.ri_spec() as int),
            arg_is_imm(r.args@[1], cmd as int),
            arg_is_imm(r.args@[2], arg as int),
    {
        crate::syscalls::io::io_command(self.ri, cmd, arg)
    }

    /// The call that sets socket option `opt` to `arg`.
    pub fn set_sock_opt(&self, opt: SocketOpt, arg: u64) -> (r: SyscallCaller)
        requires
            arg <= usize::MAX,
        ensures
            r.num == SYS_IO_COMMAND,
            r.args@.len() == 3,
            arg_is_imm(r.args@[0], self.ri_spec() as int),
            arg_is_imm(r.args@[1], opt.code_spec() as int),
            arg_is_imm(r.args@[2], arg as int),
    {
        self.io_cmd(opt.code(), arg)
    }

    /// The call that configures whether this socket blocks.
    pub fn set_blocking(&self, blocking: bool) -> (r: SyscallCaller)
        ensures
            r.num == SYS_IO_COMMAND,
            r.args@.len() == 3,
            arg_is_imm(r.args@[0], self.ri_spec() as int),
            arg_is_imm(r.args@[1], SocketOpt::Blocking.code_spec() as int),
            arg_is_imm(r.args@[2], if blocking { 1int } else { 0int }),
    {
        self.set_sock_opt(SocketOpt::Blocking, if blocking { 1 } else { 0 })
    }
}

} // verus!
