use shadow_core::childpid::PidTable;

#[test]
fn register_before_exit() {
    let mut t = PidTable::new();
    t.register_pid(42);
    assert!(t.contains(42));
    let (h, run_now) = t.register_callback(42);
    assert!(!run_now);
    assert_ne!(h, 0);
    // unregistering keeps the entry while a callback waits
    assert_eq!(t.unregister_pid(42), None);
    assert!(t.contains(42));
    assert!(!t.accepts_callbacks(42));
    let exit = t.pid_exited(42);
    assert!(exit.unwatch);
    let run: Vec<u64> = exit.callbacks.into_iter().collect();
    assert_eq!(run, vec![h]);
    assert!(!t.contains(42));
}

#[test]
fn register_after_exit() {
    let mut t = PidTable::new();
    t.register_pid(42);
    let exit = t.pid_exited(42);
    assert!(exit.unwatch);
    assert!(exit.callbacks.is_empty());
    assert!(t.contains(42));
    let (h, run_now) = t.register_callback(42);
    assert!(run_now);
    assert_eq!(h, 1);
    // nothing waits and the pipe is already closed
    assert_eq!(t.unregister_pid(42), Some(false));
    assert!(!t.contains(42));
    assert_eq!(t.unregister_pid(42), None);
}

#[test]
fn register_multiple() {
    let mut t = PidTable::new();
    t.register_pid(42);
    let (h1, now1) = t.register_callback(42);
    let (h2, now2) = t.register_callback(42);
    assert!(!now1 && !now2);
    assert_eq!(h2, h1 + 1);
    assert_eq!(t.unregister_pid(42), None);
    let exit = t.pid_exited(42);
    let mut run: Vec<u64> = exit.callbacks.into_iter().collect();
    run.sort();
    assert_eq!(run, vec![h1, h2]);
    assert!(!t.contains(42));
}

#[test]
fn unregister_one() {
    let mut t = PidTable::new();
    t.register_pid(42);
    let (h1, _) = t.register_callback(42);
    let (h2, _) = t.register_callback(42);
    assert_eq!(t.unregister_pid(42), None);
    assert_eq!(t.unregister_callback(42, h1), None);
    let exit = t.pid_exited(42);
    let run: Vec<u64> = exit.callbacks.into_iter().collect();
    assert_eq!(run, vec![h2]);
    assert!(!t.contains(42));
}

#[test]
fn last_callback_removal_drops_entry() {
    let mut t = PidTable::new();
    t.register_pid(5);
    let (h, _) = t.register_callback(5);
    assert_eq!(t.unregister_pid(5), None);
    assert_eq!(t.unregister_callback(5, h), Some(true));
    assert!(!t.contains(5));
    assert_eq!(t.unregister_callback(5, h), None);
}

#[test]
fn exit_of_registered_pid_keeps_entry() {
    let mut t = PidTable::new();
    t.register_pid(9);
    let (h, _) = t.register_callback(9);
    let exit = t.pid_exited(9);
    assert_eq!(exit.callbacks.into_iter().collect::<Vec<u64>>(), vec![h]);
    assert!(t.contains(9));
    assert!(t.accepts_callbacks(9));
    assert_eq!(t.unregister_pid(9), Some(false));
}
