use facecam::recovery::{
    device_presence, reset_outcome, wait_after_scan, wait_check_time, ResetError, RetryAction,
    RetryEvent, RetryPhase, RetryWithReset, ScanResult, WaitAction, POLL_INTERVAL_MS, SETTLE_WAIT_MS,
};

#[test]
fn reset_outcome_success_trims_states() {
    let r = reset_outcome("/sys/bus/usb/devices/10-2", true, "1\n", " 1 \n").unwrap();
    assert_eq!(r.sysfs_path, "/sys/bus/usb/devices/10-2");
    assert!(r.success);
    assert_eq!(r.previous_state, "1");
    assert_eq!(r.new_state, "1");
}

#[test]
fn reset_outcome_errors() {
    assert!(matches!(reset_outcome("/x", false, "", ""), Err(ResetError::MissingAuthorizedFile)));
    match reset_outcome("/x", true, "1\n", "0\n") {
        Err(ResetError::NotReauthorized(s)) => assert_eq!(s, "0"),
        other => panic!("unexpected {:?}", other),
    }
}

/// Drives the protocol: attempts fail until `succeed_on`, resets succeed
/// when `reset_ok`.
fn run(max: u32, succeed_on: u32, reset_ok: bool) -> Vec<RetryAction> {
    let mut p = RetryWithReset::new(max);
    let mut actions = vec![];
    let mut a = p.step(RetryEvent::Begin);
    loop {
        actions.push(a);
        a = match a {
            RetryAction::RunAttempt(n) => {
                if n == succeed_on { p.step(RetryEvent::AttemptSucceeded) } else { p.step(RetryEvent::AttemptFailed) }
            }
            RetryAction::ResetDevice => p.step(RetryEvent::ResetFinished(reset_ok)),
            RetryAction::Wait(_) => p.step(RetryEvent::Settled),
            _ => break,
        };
    }
    actions
}

#[test]
fn retry_succeeds_after_reset() {
    assert_eq!(
        run(5, 2, true),
        vec![
            RetryAction::RunAttempt(1),
            RetryAction::ResetDevice,
            RetryAction::Wait(SETTLE_WAIT_MS),
            RetryAction::RunAttempt(2),
            RetryAction::Succeed(2),
        ]
    );
    assert_eq!(run(3, 1, true), vec![RetryAction::RunAttempt(1), RetryAction::Succeed(1)]);
}

#[test]
fn retry_gives_up_after_max_attempts() {
    let actions = run(3, 99, false);
    assert_eq!(
        actions,
        vec![
            RetryAction::RunAttempt(1),
            RetryAction::ResetDevice,
            RetryAction::RunAttempt(2),
            RetryAction::ResetDevice,
            RetryAction::RunAttempt(3),
            RetryAction::GiveUp(3),
        ]
    );
    assert_eq!(run(0, 1, true), vec![RetryAction::GiveUp(0)]);
    let attempts = run(5, 99, true).iter().filter(|a| matches!(a, RetryAction::RunAttempt(_))).count();
    assert_eq!(attempts, 5);
}

#[test]
fn retry_ignores_events_out_of_turn() {
    let mut p = RetryWithReset::new(2);
    assert_eq!(p.step(RetryEvent::Settled), RetryAction::Nothing);
    assert_eq!(p.phase, RetryPhase::Idle);
}

#[test]
fn waiting_for_device() {
    assert_eq!(wait_check_time(2001, 2000), WaitAction::TimedOut);
    assert_eq!(wait_check_time(2000, 2000), WaitAction::Scan);
    assert_eq!(wait_after_scan(ScanResult::Found("/sys/x".to_string())), WaitAction::Found("/sys/x".to_string()));
    assert_eq!(wait_after_scan(ScanResult::NotFound), WaitAction::Sleep(POLL_INTERVAL_MS));
    assert_eq!(wait_after_scan(ScanResult::Failed), WaitAction::Sleep(200));
}

#[test]
fn presence() {
    let p = device_presence(Some("/sys/a".to_string()), Some("1\n"));
    assert!(p.connected && p.authorized);
    assert_eq!(p.sysfs_path.as_deref(), Some("/sys/a"));
    let p = device_presence(Some("/sys/a".to_string()), Some("+1"));
    assert!(p.authorized);
    let p = device_presence(Some("/sys/a".to_string()), Some("0\n"));
    assert!(p.connected && !p.authorized);
    let p = device_presence(Some("/sys/a".to_string()), Some("yes"));
    assert!(!p.authorized);
    let p = device_presence(Some("/sys/a".to_string()), None);
    assert!(p.connected && !p.authorized);
    let p = device_presence(None, Some("1"));
    assert!(!p.connected && !p.authorized && p.sysfs_path.is_none());
}
