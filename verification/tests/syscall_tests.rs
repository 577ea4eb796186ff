use safa_api::errors::{ERR_GENERIC, ERR_TIMEOUT};
use safa_api::syscalls::{
    fs, io, misc, process, raw, resources, sockets, sys_result, sys_result_ri, sys_result_unit,
    thread, SysArg, SyscallCaller, SYS_FS_CREATE, SYS_FS_OPEN_ALL, SYS_IO_COMMAND, SYS_IO_READ,
    SYS_IO_TRUNCATE, SYS_IO_WRITE, SYS_P_EXIT, SYS_P_WAIT, SYS_REBOOT, SYS_R_CLONE,
    SYS_R_DESTROY, SYS_SHUTDOWN, SYS_SOCK_CREATE, SYS_SOCK_LISTEN, SYS_T_SLEEP, SYS_T_YIELD,
    SYS_UPTIME,
};

fn err_reply(code: u16) -> usize {
    (code as usize).wrapping_neg()
}

#[test]
fn successful_replies_decode_to_their_value() {
    assert_eq!(sys_result(0), Ok(0));
    assert_eq!(sys_result(5), Ok(5));
    assert_eq!(sys_result(usize::MAX / 2), Ok(usize::MAX / 2));
    assert_eq!(sys_result_unit(9), Ok(()));
    assert_eq!(sys_result_ri(77), Ok(77));
}

#[test]
fn error_replies_carry_their_code() {
    let e = sys_result(err_reply(ERR_TIMEOUT)).unwrap_err();
    assert_eq!(e.code(), ERR_TIMEOUT);
    let e = sys_result_unit(err_reply(ERR_GENERIC)).unwrap_err();
    assert_eq!(e.code(), ERR_GENERIC);
    let e = sys_result_ri(err_reply(3)).unwrap_err();
    assert_eq!(e.code(), 3);
}

#[test]
fn resource_id_replies_over_32_bits_are_corrupt() {
    if usize::MAX > u32::MAX as usize {
        let e = sys_result_ri(u32::MAX as usize + 1).unwrap_err();
        assert_eq!(e.code(), safa_api::errors::ERR_CORRUPTED);
    }
}

#[test]
fn io_count_result_rejects_overlong_counts() {
    assert_eq!(io::io_count_result(4, 8), Ok(4));
    assert!(io::io_count_result(9, 8).is_err());
    assert!(io::io_count_result(err_reply(ERR_TIMEOUT), 8).is_err());
}

#[test]
fn try_cleanup_result_distinguishes_not_yet_exited() {
    assert_eq!(process::try_cleanup_result(0, 3), Ok(Some(3)));
    assert_eq!(process::try_cleanup_result(err_reply(ERR_GENERIC), 0), Ok(None));
    let e = process::try_cleanup_result(err_reply(ERR_TIMEOUT), 0).unwrap_err();
    assert_eq!(e.code(), ERR_TIMEOUT);
}

fn imm(arg: &SysArg) -> usize {
    match arg {
        SysArg::Imm(v) => *v,
        other => panic!("expected an immediate, got {:?}", discr(other)),
    }
}

fn discr(arg: &SysArg) -> &'static str {
    match arg {
        SysArg::Imm(_) => "Imm",
        SysArg::Bytes(_) => "Bytes",
        SysArg::OutBuf(_) => "OutBuf",
        SysArg::OutWord => "OutWord",
        SysArg::FutexWord => "FutexWord",
    }
}

#[test]
fn io_calls_describe_number_and_arguments() {
    let c = io::truncate(3, 100);
    assert_eq!(c.num, SYS_IO_TRUNCATE);
    assert_eq!(c.args.len(), 2);
    assert_eq!(imm(&c.args[0]), 3);
    assert_eq!(imm(&c.args[1]), 100);

    let c = io::read(7, -1, 64);
    assert_eq!(c.num, SYS_IO_READ);
    assert_eq!(imm(&c.args[0]), 7);
    assert_eq!(imm(&c.args[1]), (-1isize) as usize);
    match &c.args[2] {
        SysArg::OutBuf(n) => assert_eq!(*n, 64),
        _ => panic!("read must carry an output buffer"),
    }

    let c = io::write(7, 0, b"hello");
    assert_eq!(c.num, SYS_IO_WRITE);
    match &c.args[2] {
        SysArg::Bytes(b) => assert_eq!(b.as_slice(), b"hello"),
        _ => panic!("write must carry its payload"),
    }

    let c = io::io_command(9, 2, 500);
    assert_eq!(c.num, SYS_IO_COMMAND);
    assert_eq!(imm(&c.args[1]), 2);
    assert_eq!(imm(&c.args[2]), 500);
}

#[test]
fn path_calls_carry_the_path_bytes() {
    let c = fs::open_all("sys:/run");
    assert_eq!(c.num, SYS_FS_OPEN_ALL);
    match &c.args[0] {
        SysArg::Bytes(b) => assert_eq!(b.as_slice(), b"sys:/run"),
        _ => panic!("open_all must carry the path"),
    }
    let c = fs::create("a.txt");
    assert_eq!(c.num, SYS_FS_CREATE);
    match &c.args[0] {
        SysArg::Bytes(b) => assert_eq!(b.as_slice(), b"a.txt"),
        _ => panic!("create must carry the path"),
    }
}

#[test]
fn flat_and_grouped_spellings_agree() {
    let a = raw::truncate(4, 9);
    let b = io::truncate(4, 9);
    assert_eq!(a.num, b.num);
    assert_eq!(a.args.len(), b.args.len());
    let a = raw::yield_now();
    assert_eq!(a.num, SYS_T_YIELD);
    assert_eq!(a.args.len(), 0);
    assert_eq!(raw::shutdown().num, SYS_SHUTDOWN);
    assert_eq!(raw::reboot().num, SYS_REBOOT);
    assert_eq!(raw::process_exit(2).num, SYS_P_EXIT);
    assert_eq!(raw::uptime().num, SYS_UPTIME);
    assert_eq!(raw::dup(5).num, SYS_R_CLONE);
    assert_eq!(raw::destroy_resource(5).num, SYS_R_DESTROY);
}

#[test]
fn process_and_thread_calls() {
    let c = process::exit(3);
    assert_eq!(c.num, SYS_P_EXIT);
    assert_eq!(imm(&c.args[0]), 3);

    let c = process::wait(12);
    assert_eq!(c.num, SYS_P_WAIT);
    assert_eq!(imm(&c.args[0]), 12);
    assert!(matches!(c.args[1], SysArg::OutWord));

    let c = thread::sleep(250).unwrap();
    assert_eq!(c.num, SYS_T_SLEEP);
    assert_eq!(imm(&c.args[0]), 250);

    assert_eq!(thread::yield_now().num, SYS_T_YIELD);
    assert_eq!(misc::uptime().num, SYS_UPTIME);
    assert_eq!(resources::dup(1).num, SYS_R_CLONE);
}

#[test]
fn socket_calls_describe_their_arguments() {
    let c = sockets::create(1, 2, 0);
    assert_eq!(c.num, SYS_SOCK_CREATE);
    assert_eq!(imm(&c.args[0]), 1);
    assert_eq!(imm(&c.args[1]), 2);

    let c = sockets::listen(8, 16);
    assert_eq!(c.num, SYS_SOCK_LISTEN);
    assert_eq!(imm(&c.args[1]), 16);

    let c = sockets::send_to(8, b"ping", 0, None);
    assert_eq!(imm(&c.args[3]), 0);
    match &c.args[1] {
        SysArg::Bytes(b) => assert_eq!(b.as_slice(), b"ping"),
        _ => panic!("send_to must carry its payload"),
    }
}

#[test]
fn syscall_caller_packages_number_and_arguments() {
    let c = SyscallCaller::new(17, vec![SysArg::Imm(1), SysArg::OutWord]);
    assert_eq!(c.num, 17);
    assert_eq!(c.args.len(), 2);
    assert_eq!(imm(&c.args[0]), 1);
}
