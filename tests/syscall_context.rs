use shadow_core::context::{HostContext, ThreadContextObjs};
use shadow_core::syscall::{SyscallHandler, SyscallOutcome, ENOSYS};

#[test]
fn syscall_table_categories() {
    let h = SyscallHandler::new();
    assert_eq!(h.syscall(0), SyscallOutcome::Emulate("read"));
    assert_eq!(h.syscall(43), SyscallOutcome::Emulate("accept"));
    assert_eq!(h.syscall(435), SyscallOutcome::Emulate("clone3"));
    assert_eq!(h.syscall(21), SyscallOutcome::Native("access"));
    assert_eq!(h.syscall(80), SyscallOutcome::Unsupported("chdir"));
    assert_eq!(h.syscall(80).errno(), Some(ENOSYS));
    assert_eq!(h.syscall(100_000), SyscallOutcome::Unmapped);
    assert_eq!(h.syscall(100_000).errno(), Some(ENOSYS));
    assert_eq!(h.syscall(0).errno(), None);
    assert!(SyscallHandler::is_shim_only(228));
    assert!(SyscallHandler::is_shim_only(24));
    assert!(!SyscallHandler::is_shim_only(0));
}

#[test]
fn contexts_borrow_each_part() {
    let mut host = 1u32;
    let mut process = String::from("p");
    let mut thread = vec![0u8];
    {
        let mut hc = HostContext::new(&mut host);
        *hc.host += 1;
        let mut pc = hc.with_process(&mut process);
        pc.process.push('q');
        let tc = pc.with_thread(&mut thread);
        *tc.host += 10;
        tc.thread.push(9);
    }
    assert_eq!(host, 12);
    assert_eq!(process, "pq");
    assert_eq!(thread, vec![0, 9]);

    let mut objs = ThreadContextObjs::new(5u64, "proc".to_string(), 7i32);
    {
        let ctx = objs.borrow();
        *ctx.host = 6;
        *ctx.thread = 8;
    }
    assert_eq!(objs.into_parts(), (6, "proc".to_string(), 8));
}
