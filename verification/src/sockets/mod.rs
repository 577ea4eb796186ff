//! Typed sockets over the kernel's socket calls.

pub mod socket;
pub mod udp;
pub mod unix;

pub use socket::{Socket, SocketBuilder, SocketDomain, SocketKind, SocketOpt};
pub use udp::UDPSocket;
pub use unix::{UnixListener, UnixSockConnection, UnixSockKind};
