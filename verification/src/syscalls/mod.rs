//! Descriptions of the system calls the runtime makes.
//!
//! A system call cannot be performed from verified code: the trap is one
//! instruction of inline assembly.  What the library verifies instead is
//! everything around the trap: for each operation it builds a
//! [`SyscallCaller`] that says exactly which syscall number is invoked and
//! which arguments are passed, and it decodes the raw reply word the
//! kernel hands back.  The thin runtime layer outside the library performs
//! the described call — marshalling payloads to pointer-length pairs,
//! issuing the trap — and feeds the reply to [`sys_result`].
//!
//! The syscall numbers are the kernel's ABI: the value of each constant is
//! the number the kernel dispatches on.

use vstd::prelude::*;

use crate::errors::ErrorStatus;

pub mod fs;
pub mod futex;
pub mod io;
pub mod mem;
pub mod misc;
pub mod process;
pub mod raw;
pub mod resources;
pub mod sockets;
pub mod thread;

verus! {

/// Exits the process.
pub const SYS_P_EXIT: u16 = 0;
/// Yields the processor to the next runnable thread.
pub const SYS_T_YIELD: u16 = 1;
/// Opens a path with all permissions.
pub const SYS_FS_OPEN_ALL: u16 = 2;
/// Writes to a resource.
pub const SYS_IO_WRITE: u16 = 3;
/// Reads from a resource.
pub const SYS_IO_READ: u16 = 4;
/// Destroys (closes) a resource.
pub const SYS_R_DESTROY: u16 = 5;
/// Creates a file.
pub const SYS_FS_CREATE: u16 = 6;
/// Creates a directory.
pub const SYS_FS_CREATE_DIR: u16 = 7;
/// Opens a directory iterator over a directory resource.
pub const SYS_F_DIR_ITER_OPEN: u16 = 8;
/// Returns the next entry of a directory iterator.
pub const SYS_DIR_ITER_NEXT: u16 = 10;
/// Waits for a child process to exit.
pub const SYS_P_WAIT: u16 = 11;
/// Sends a device command to a resource.
pub const SYS_IO_COMMAND: u16 = 12;
/// Changes the current working directory.
pub const SYS_P_CHDIR: u16 = 14;
/// Reads the current working directory.
pub const SYS_P_GETCWD: u16 = 15;
/// Flushes pending writes on a resource.
pub const SYS_IO_SYNC: u16 = 16;
/// Truncates a file.
pub const SYS_IO_TRUNCATE: u16 = 17;
/// Moves the process data break.
pub const SYS_P_SBRK: u16 = 18;
/// Spawns a process.
pub const SYS_P_SPAWN: u16 = 19;
/// Shuts the machine down.
pub const SYS_SHUTDOWN: u16 = 20;
/// Reboots the machine.
pub const SYS_REBOOT: u16 = 21;
/// Returns the size of a file.
pub const SYS_F_SIZE: u16 = 22;
/// Returns the directory entry of a path.
pub const SYS_F_GET_DIR_ENTRY: u16 = 23;
/// Returns the attributes of a file resource.
pub const SYS_F_ATTRS: u16 = 24;
/// Opens a path with explicit options.
pub const SYS_FS_OPEN: u16 = 25;
/// Duplicates a resource.
pub const SYS_R_CLONE: u16 = 26;
/// Returns the uptime in milliseconds.
pub const SYS_UPTIME: u16 = 27;
/// Removes a path.
pub const SYS_FS_REMOVE_PATH: u16 = 28;
/// Spawns a thread.
pub const SYS_T_SPAWN: u16 = 29;
/// Exits the current thread.
pub const SYS_T_EXIT: u16 = 30;
/// Sleeps the current thread.
pub const SYS_T_SLEEP: u16 = 31;
/// Waits for a child thread to exit.
pub const SYS_T_WAIT: u16 = 32;
/// Cleans up an already-exited child process without waiting.
pub const SYS_P_TRY_CLEANUP: u16 = 33;
/// Blocks on a futex word.
pub const SYS_T_FUT_WAIT: u16 = 34;
/// Wakes threads blocked on a futex word.
pub const SYS_T_FUT_WAKE: u16 = 35;
/// Maps fresh or resource-backed pages.
pub const SYS_MEM_MAP: u16 = 36;
/// Creates a socket descriptor.
pub const SYS_SOCK_CREATE: u16 = 37;
/// Binds a socket to an address.
pub const SYS_SOCK_BIND: u16 = 38;
/// Configures a server socket's listen queue.
pub const SYS_SOCK_LISTEN: u16 = 39;
/// Accepts a pending connection.
pub const SYS_SOCK_ACCEPT: u16 = 40;
/// Connects to a bound server socket.
pub const SYS_SOCK_CONNECT: u16 = 41;
/// Creates a shared-memory descriptor.
pub const SYS_MEM_SHM_CREATE: u16 = 42;
/// Opens a shared-memory descriptor by key.
pub const SYS_MEM_SHM_OPEN: u16 = 43;
/// Allocates a pair of virtual terminal interfaces.
pub const SYS_VTTY_ALLOC: u16 = 44;
/// Polls a set of resources for readiness.
pub const SYS_IO_POLL: u16 = 45;
/// Sends data through a socket.
pub const SYS_SOCK_SEND_TO: u16 = 46;
/// Receives data from a socket.
pub const SYS_SOCK_RECV_FROM: u16 = 47;

/// One argument of a described system call, as the runtime must marshal
/// it.
pub enum SysArg {
    /// A plain value passed in one register.
    Imm(usize),
    /// Caller bytes handed to the kernel as a pointer-length pair.
    Bytes(Vec<u8>),
    /// A caller buffer of the given size the kernel fills, passed as a
    /// pointer-length pair.
    OutBuf(usize),
    /// A pointer to a single word the kernel writes a result into.
    OutWord,
    /// The address of the caller's futex word.
    FutexWord,
}

/// The argument is the immediate `v`.
pub open spec fn arg_is_imm(a: SysArg, v: int) -> bool {
    a matches SysArg::Imm(x) && x == v
}

/// The argument passes exactly the bytes `b` to the kernel.
pub open spec fn arg_is_bytes(a: SysArg, b: Seq<u8>) -> bool {
    a matches SysArg::Bytes(v) && v@ == b
}

/// The argument is a kernel-filled buffer of `n` bytes.
pub open spec fn arg_is_out_buf(a: SysArg, n: int) -> bool {
    a matches SysArg::OutBuf(x) && x == n
}

/// A fully described system call, ready for the runtime to perform: the
/// syscall number and the arguments, in order.
pub struct SyscallCaller {
    /// The syscall number the kernel dispatches on.
    pub num: u16,
    /// The arguments, in the order the kernel expects them.
    pub args: Vec<SysArg>,
}

impl SyscallCaller {
    /// Packages a syscall number with its arguments.
    pub fn new(num: u16, args: Vec<SysArg>) -> (r: Self)
        ensures
            r.num == num,
            r.args == args,
    {
        SyscallCaller { num, args }
    }
}

/// The reply word denotes an error: interpreted as a signed value, it is
/// negative.
pub open spec fn reply_is_err(raw: usize) -> bool {
    raw > usize::MAX / 2
}

/// The error code carried by an error reply: the low sixteen bits of the
/// reply's negation.
pub open spec fn reply_err_code(raw: usize) -> int {
    (usize::MAX - raw + 1) % 0x10000
}

/// Decodes a raw syscall reply word.  A non-negative reply is the call's
/// result value; a negative reply carries the negated error code.
pub fn sys_result(raw: usize) -> (r: Result<usize, ErrorStatus>)
    ensures
        !reply_is_err(raw) ==> r == Ok::<usize, ErrorStatus>(raw),
        reply_is_err(raw) ==> (r matches Err(e) && e.code == reply_err_code(raw)),
{
    if raw <= usize::MAX / 2 {
        Ok(raw)
    } else {
        let magnitude = usize::MAX - raw + 1;
        let code = (magnitude % 0x10000) as u16;
        Err(ErrorStatus { code })
    }
}

/// Decodes a raw reply of a call that carries no result value.
pub fn sys_result_unit(raw: usize) -> (r: Result<(), ErrorStatus>)
    ensures
        !reply_is_err(raw) ==> r == Ok::<(), ErrorStatus>(()),
        reply_is_err(raw) ==> (r matches Err(e) && e.code == reply_err_code(raw)),
{
    match sys_result(raw) {
        Ok(_) => Ok(()),
        Err(e) => Err(e),
    }
}

/// Decodes a raw reply whose result value is a resource id.  Resource ids
/// are 32 bits; the kernel never replies with a larger value, and a reply
/// that would not fit is reported as corrupt rather than truncated.
pub fn sys_result_ri(raw: usize) -> (r: Result<u32, ErrorStatus>)
    ensures
        !reply_is_err(raw) && raw <= u32::MAX ==> r == Ok::<u32, ErrorStatus>(raw as u32),
        !reply_is_err(raw) && raw > u32::MAX ==> (r matches Err(e) && e.code
            == crate::errors::ERR_CORRUPTED),
        reply_is_err(raw) ==> (r matches Err(e) && e.code == reply_err_code(raw)),
{
    match sys_result(raw) {
        Ok(v) => {
            if v <= u32::MAX as usize {
                Ok(v as u32)
            } else {
                Err(ErrorStatus::from_code(crate::errors::ERR_CORRUPTED))
            }
        },
        Err(e) => Err(e),
    }
}

} // verus!
