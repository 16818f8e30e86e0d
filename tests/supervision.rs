use command_spec::{
    disable_cleanup_on_ctrlc, exit_outcome, finish, CommandError, ProcessRegistry, RelayAction,
    Signal, SignalRelay, SpawnGuard, INTERRUPT_EXIT_STATUS,
};

#[test]
fn register_twice_is_refused() {
    let mut reg: ProcessRegistry<&str> = ProcessRegistry::new();
    assert!(reg.register(41, "first").is_ok());
    assert_eq!(reg.register(41, "second"), Err("second"));
    assert_eq!(reg.len(), 1);
    assert_eq!(reg.handle(41), Some(&"first"));
}

#[test]
fn unregister_unknown_is_absent() {
    let mut reg: ProcessRegistry<u8> = ProcessRegistry::new();
    assert!(reg.register(1, 10).is_ok());
    assert_eq!(reg.unregister(2), None);
    assert_eq!(reg.len(), 1);
    assert_eq!(reg.unregister(1), Some(10));
    assert_eq!(reg.len(), 0);
    assert_eq!(reg.unregister(1), None);
}

#[test]
fn ids_keep_registration_order() {
    let mut reg: ProcessRegistry<u8> = ProcessRegistry::new();
    for id in [30, 10, 20] {
        assert!(reg.register(id, 0).is_ok());
    }
    assert!(reg.unregister(10).is_some());
    assert_eq!(reg.ids(), vec![30, 20]);
    assert!(reg.contains(20));
    assert!(!reg.contains(10));
}

#[test]
fn teardown_signals_then_releases() {
    let mut reg: ProcessRegistry<&str> = ProcessRegistry::new();
    let guard = SpawnGuard::adopt(&mut reg, 7, "child").ok().unwrap();
    assert_eq!(guard.id(), 7);
    assert_eq!(guard.signal_target(), Some(7));
    let rel = guard.teardown(&mut reg).unwrap();
    assert_eq!(rel.handle, "child");
    assert!(rel.signal_group);
    assert_eq!(reg.len(), 0);
}

#[test]
fn abandoned_guard_is_not_signalled_and_releases_once() {
    let mut reg: ProcessRegistry<&str> = ProcessRegistry::new();
    let mut guard = SpawnGuard::adopt(&mut reg, 7, "child").ok().unwrap();
    assert!(reg.register(8, "other").is_ok());
    guard.abandon();
    assert!(guard.is_abandoned());
    assert_eq!(guard.signal_target(), None);
    let rel = guard.teardown(&mut reg).unwrap();
    assert!(!rel.signal_group);
    assert_eq!(rel.handle, "child");
    assert_eq!(reg.unregister(7), None);
    assert_eq!(reg.ids(), vec![8]);
    assert_eq!(reg.handle(8), Some(&"other"));
}

#[test]
fn adopt_refuses_a_registered_id() {
    let mut reg: ProcessRegistry<&str> = ProcessRegistry::new();
    assert!(reg.register(5, "a").is_ok());
    let r = SpawnGuard::adopt(&mut reg, 5, "b");
    assert!(matches!(r, Err("b")));
}

#[test]
fn finish_reports_and_removes_without_signal() {
    let mut reg: ProcessRegistry<&str> = ProcessRegistry::new();
    let guard = SpawnGuard::adopt(&mut reg, 9, "child").ok().unwrap();
    let (outcome, handle) = finish(guard, &mut reg, Some(7));
    assert!(matches!(outcome, Err(CommandError::Code(7))));
    assert_eq!(handle, Some("child"));
    assert_eq!(reg.len(), 0);
}

#[test]
fn exit_codes_map_to_outcomes() {
    assert!(exit_outcome(Some(0)).is_ok());
    assert!(matches!(exit_outcome(Some(7)), Err(CommandError::Code(7))));
    assert!(matches!(exit_outcome(None), Err(CommandError::Interrupt)));
    assert_eq!(exit_outcome(Some(7)).unwrap_err().error_code(), 7);
}

#[test]
fn relay_policy() {
    let mut relay = SignalRelay::new();
    assert_eq!(relay.dispatch(Signal::Interrupt), RelayAction::Default);
    relay.install();
    assert_eq!(relay.dispatch(Signal::ChildTerminated), RelayAction::ReapExited);
    assert_eq!(
        relay.dispatch(Signal::Interrupt),
        RelayAction::SignalAllThenExit(INTERRUPT_EXIT_STATUS)
    );
    assert_eq!(INTERRUPT_EXIT_STATUS, 130);
    assert_eq!(relay.dispatch(Signal::Other(15)), RelayAction::SignalAll);
    disable_cleanup_on_ctrlc(&mut relay);
    assert!(!relay.is_installed());
    assert_eq!(relay.dispatch(Signal::Other(15)), RelayAction::Default);
}
