//! A UDP datagram socket with per-direction timeouts.

use vstd::prelude::*;

use crate::errors::{ErrorStatus, ERR_CONNECTION_CLOSED, ERR_TIMEOUT};
use crate::sockets::socket::SocketOpt;
use crate::syscalls::{arg_is_imm, SyscallCaller, SYS_IO_COMMAND};

verus! {

/// Poll event bit: data can be read.
pub const POLL_DATA_AVAILABLE: u16 = 1;
/// Poll event bit: the other side disconnected.
pub const POLL_DISCONNECTED: u16 = 4;

/// A connectionless UDP socket: its resource id, the configured
/// timeouts in milliseconds (zero never being stored), and whether its
/// operations may block.
pub struct UDPSocket {
    sock_resource: u32,
    write_timeout: Option<u64>,
    read_timeout: Option<u64>,
    can_block: bool,
}

impl UDPSocket {
    /// The configured write timeout in milliseconds, never zero.
    pub closed spec fn write_timeout_spec(&self) -> Option<u64> {
        self.write_timeout
    }

    /// The configured read timeout in milliseconds, never zero.
    pub closed spec fn read_timeout_spec(&self) -> Option<u64> {
        self.read_timeout
    }

    /// The socket's resource id.
    pub closed spec fn ri_spec(&self) -> u32 {
        self.sock_resource
    }

    /// Whether operations on the socket may block.
    pub closed spec fn can_block_spec(&self) -> bool {
        self.can_block
    }

    /// Wraps the resource id of a freshly created datagram socket: no
    /// timeouts, blocking.
    pub fn from_ri(sock_resource: u32) -> (r: Self)
        ensures
            r.ri_spec() == sock_resource,
            r.write_timeout_spec() is None,
            r.read_timeout_spec() is None,
            r.can_block_spec(),
    {
        UDPSocket { sock_resource, write_timeout: None, read_timeout: None, can_block: true }
    }

    /// Sets the write timeout; a zero timeout means none at all.
    pub fn set_write_timeout(&mut self, timeout_ms: Option<u64>)
        ensures
            final(self).write_timeout_spec() == (match timeout_ms {
                Some(ms) => if ms == 0 { None } else { Some(ms) },
                None => None::<u64>,
            }),
            final(self).read_timeout_spec() == old(self).read_timeout_spec(),
            final(self).ri_spec() == old(self).ri_spec(),
            final(self).can_block_spec() == old(self).can_block_spec(),
    {
        self.write_timeout = match timeout_ms {
            Some(ms) => if ms == 0 {
                None
            } else {
                Some(ms)
            },
            None => None,
        };
    }

    /// Sets the read timeout; a zero timeout means none at all.
    pub fn set_read_timeout(&mut self, timeout_ms: Option<u64>)
        ensures
            final(self).read_timeout_spec() == (match timeout_ms {
                Some(ms) => if ms == 0 { None } else { Some(ms) },
                None => None::<u64>,
            }),
            final(self).write_timeout_spec() == old(self).write_timeout_spec(),
            final(self).ri_spec() == old(self).ri_spec(),
            final(self).can_block_spec() == old(self).can_block_spec(),
    {
        self.read_timeout = match timeout_ms {
            Some(ms) => if ms == 0 {
                None
            } else {
                Some(ms)
            },
            None => None,
        };
    }

    /// The configured write timeout in milliseconds.
    pub fn write_timeout(&self) -> (r: Option<u64>)
        ensures
            r == self.write_timeout_spec(),
    {
        self.write_timeout
    }

    /// The configured read timeout in milliseconds.
    pub fn read_timeout(&self) -> (r: Option<u64>)
        ensures
            r == self.read_timeout_spec(),
    {
        self.read_timeout
    }

    /// The device command that asks the kernel to make the socket
    /// blocking or not.  The recorded mode is untouched here: the runtime
    /// performs the returned call and records the mode with
    /// [`Self::confirm_can_block`] only when the kernel accepted it, so a
    /// refused command cannot leave a stale flag.
    pub fn set_can_block(&self, can_block: bool) -> (r: SyscallCaller)
        ensures
            r.num == SYS_IO_COMMAND,
            r.args@.len() == 3,
            arg_is_imm(r.args@[0], self.ri_spec() as int),
            arg_is_imm(r.args@[1], SocketOpt::Blocking.code_spec() as int),
            arg_is_imm(r.args@[2], if can_block { 1int } else { 0int }),
    {
        crate::syscalls::io::io_command(
            self.sock_resource,
            SocketOpt::Blocking.code(),
            if can_block {
                1
            } else {
                0
            },
        )
    }

    /// Records the blocking mode after the kernel accepted the command
    /// built by [`Self::set_can_block`].
    pub fn confirm_can_block(&mut self, can_block: bool)
        ensures
            final(self).can_block_spec() == can_block,
            final(self).ri_spec() == old(self).ri_spec(),
            final(self).write_timeout_spec() == old(self).write_timeout_spec(),
            final(self).read_timeout_spec() == old(self).read_timeout_spec(),
    {
        self.can_block = can_block;
    }

    /// The socket's raw resource id.
    pub fn ri(&self) -> (r: u32)
        ensures
            r == self.ri_spec(),
    {
        self.sock_resource
    }

    /// Decides what a timed receive does with the events a poll on this
    /// socket returned: a disconnect ends the receive with the
    /// connection-closed error, absence of readable data means the
    /// timeout elapsed, and otherwise the receive may go ahead.
    pub fn interpret_poll(&self, returned_events: u16) -> (r: Result<(), ErrorStatus>)
        ensures
            returned_events & POLL_DISCONNECTED != 0 ==> (r matches Err(e) && e.code
                == ERR_CONNECTION_CLOSED),
            returned_events & POLL_DISCONNECTED == 0 && returned_events & POLL_DATA_AVAILABLE
                == 0 ==> (r matches Err(e) && e.code == ERR_TIMEOUT),
            returned_events & POLL_DISCONNECTED == 0 && returned_events & POLL_DATA_AVAILABLE
                != 0 ==> r is Ok,
    {
        if returned_events & POLL_DISCONNECTED != 0 {
            Err(ErrorStatus::from_code(ERR_CONNECTION_CLOSED))
        } else if returned_events & POLL_DATA_AVAILABLE == 0 {
            Err(ErrorStatus::from_code(ERR_TIMEOUT))
        } else {
            Ok(())
        }
    }
}

} // verus!
