//! Local (Unix) domain sockets: connections and listeners.

use vstd::prelude::*;

use crate::sockets::socket::{Socket, SocketKind, SocketOpt};
use crate::syscalls::{arg_is_bytes, arg_is_imm, arg_is_out_buf, SyscallCaller};

verus! {

/// The kind of a local socket.
#[derive(Clone, Copy, Debug, PartialEq, Eq, Structural)]
pub enum UnixSockKind {
    /// A byte stream.
    Stream,
    /// Sequenced, reliable packets.
    SeqPacket,
}

impl UnixSockKind {
    /// The generic socket kind this local kind corresponds to.
    pub fn as_socket_kind(self) -> (r: SocketKind)
        ensures
            self is Stream ==> r == SocketKind::Stream,
            self is SeqPacket ==> r == SocketKind::SeqPacket,
    {
        match self {
            UnixSockKind::Stream => SocketKind::Stream,
            UnixSockKind::SeqPacket => SocketKind::SeqPacket,
        }
    }
}

/// One end of an established local connection.
pub struct UnixSockConnection {
    socket: Socket,
}

impl UnixSockConnection {
    /// The underlying socket's resource id.
    pub closed spec fn ri_spec(&self) -> u32 {
        self.socket.ri_spec()
    }

    /// Wraps an established connection's socket.
    pub fn from_socket(socket: Socket) -> (r: Self)
        ensures
            r.ri_spec() == socket.ri_spec(),
    {
        UnixSockConnection { socket }
    }

    /// The call that reads up to `len` bytes from the connection.
    pub fn read(&self, len: usize) -> (r: SyscallCaller)
        ensures
            r.num == crate::syscalls::SYS_IO_READ,
            r.args@.len() == 3,
            arg_is_imm(r.args@[0], self.ri_spec() as int),
            arg_is_imm(r.args@[1], 0),
            arg_is_out_buf(r.args@[2], len as int),
    {
        self.socket.read(len)
    }

    /// The call that writes `data` to the connection.
    pub fn write(&self, data: &[u8]) -> (r: SyscallCaller)
        ensures
            r.num == crate::syscalls::SYS_IO_WRITE,
            r.args@.len() == 3,
            arg_is_imm(r.args@[0], self.ri_spec() as int),
            arg_is_imm(r.args@[1], 0),
            arg_is_bytes(r.args@[2], data@),
    {
        self.socket.write(data)
    }

    /// The call that configures whether the connection blocks: the
    /// blocking option with the on/off argument, on the connection's
    /// resource.
    pub fn set_can_block(&self, can_block: bool) -> (r: SyscallCaller)
        ensures
            r.num == crate::syscalls::SYS_IO_COMMAND,
            r.args@.len() == 3,
            arg_is_imm(r.args@[0], self.ri_spec() as int),
            arg_is_imm(r.args@[1], SocketOpt::Blocking.code_spec() as int),
            arg_is_imm(r.args@[2], if can_block { 1int } else { 0int }),
    {
        self.socket.set_blocking(can_block)
    }

    /// The connection's raw resource id.
    pub fn ri(&self) -> (r: u32)
        ensures
            r == self.ri_spec(),
    {
        self.socket.ri()
    }

    /// The underlying socket.
    pub fn raw_socket(&self) -> (r: &Socket)
        ensures
            r.ri_spec() == self.ri_spec(),
    {
        &self.socket
    }
}

/// A bound, listening local socket.
pub struct UnixListener {
    socket: Socket,
}

impl UnixListener {
    /// The underlying socket's resource id.
    pub closed spec fn ri_spec(&self) -> u32 {
        self.socket.ri_spec()
    }

    /// Wraps a bound, listening socket.
    pub fn from_socket(socket: Socket) -> (r: Self)
        ensures
            r.ri_spec() == socket.ri_spec(),
    {
        UnixListener { socket }
    }

    /// The call that accepts a pending connection; the reply carries the
    /// connection's resource id.
    pub fn accept(&self) -> (r: SyscallCaller)
        ensures
            r.num == crate::syscalls::SYS_SOCK_ACCEPT,
            r.args@.len() == 2,
            arg_is_imm(r.args@[0], self.ri_spec() as int),
            arg_is_imm(r.args@[1], 0),
    {
        self.socket.accept()
    }

    /// The listener's raw resource id.
    pub fn ri(&self) -> (r: u32)
        ensures
            r == self.ri_spec(),
    {
        self.socket.ri()
    }

    /// The underlying socket.
    pub fn raw_socket(&self) -> (r: &Socket)
        ensures
            r.ri_spec() == self.ri_spec(),
    {
        &self.socket
    }
}

} // verus!
