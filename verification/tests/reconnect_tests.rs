use anyplug::error::{ErrorCategory, ErrorKind, UsbIpError, UsbIpResult};
use anyplug::reconnect::{
    after_forwarding, classify_and_backoff, decide_reconnect, should_retry, ReconnectDecision,
    ReconnectState,
};
use std::time::Duration;

fn make_error(category: ErrorCategory) -> UsbIpError {
    let kind = match category {
        ErrorCategory::Transient => ErrorKind::ConnectionClosed,
        ErrorCategory::Permanent => ErrorKind::DeviceNotFound("test".into()),
        ErrorCategory::Fatal => ErrorKind::UrbFailed(0),
    };
    UsbIpError::new(kind, category)
}

fn delay(attempt: u32) -> Duration {
    Duration::from_secs(1u64 << attempt.min(5))
}

#[test]
fn test_default_config_unlimited_retries() {
    assert!(should_retry(None, 0));
    assert!(should_retry(None, 100));
}

#[test]
fn test_no_retry_config() {
    assert!(!should_retry(Some(0), 0));
}

#[test]
fn test_with_max_retries() {
    assert!(should_retry(Some(3), 0));
    assert!(should_retry(Some(3), 2));
    assert!(!should_retry(Some(3), 3));
    assert!(!should_retry(Some(3), 5));
}

#[test]
fn test_state_starts_active() {
    let state = ReconnectState::Active;
    let err = make_error(ErrorCategory::Transient);
    let new = state.on_error(&err, None, delay);
    assert!(matches!(new, ReconnectState::BackOff { attempt: 0, .. }));
}

#[test]
fn test_transient_error_transitions_to_backoff() {
    let state = ReconnectState::Active;
    let err = make_error(ErrorCategory::Transient);
    let new = state.on_error(&err, None, delay);
    assert!(matches!(new, ReconnectState::BackOff { attempt: 0, .. }));
}

#[test]
fn test_permanent_error_transitions_to_stopped() {
    let state = ReconnectState::Active;
    let err = make_error(ErrorCategory::Permanent);
    let new = state.on_error(&err, None, delay);
    assert_eq!(new, ReconnectState::Stopped);
}

#[test]
fn test_fatal_error_transitions_to_stopped() {
    let state = ReconnectState::Active;
    let err = make_error(ErrorCategory::Fatal);
    let new = state.on_error(&err, None, delay);
    assert_eq!(new, ReconnectState::Stopped);
}

#[test]
fn test_backoff_increments_attempt() {
    let state = ReconnectState::BackOff { attempt: 0, next_delay: Duration::from_secs(1) };
    let err = make_error(ErrorCategory::Transient);
    let new = state.on_error(&err, None, delay);
    assert!(matches!(new, ReconnectState::BackOff { attempt: 1, .. }));
}

#[test]
fn test_backoff_second_transient_increments_again() {
    let state = ReconnectState::BackOff { attempt: 2, next_delay: Duration::from_secs(4) };
    let err = make_error(ErrorCategory::Transient);
    let new = state.on_error(&err, None, delay);
    assert!(matches!(new, ReconnectState::BackOff { attempt: 3, .. }));
}

#[test]
fn test_max_retries_exhausted() {
    let state = ReconnectState::BackOff { attempt: 1, next_delay: Duration::from_secs(2) };
    let err = make_error(ErrorCategory::Transient);
    let new = state.on_error(&err, Some(2), delay);
    assert_eq!(new, ReconnectState::Stopped);
}

#[test]
fn test_limited_retries_allows_until_limit() {
    let state = ReconnectState::BackOff { attempt: 2, next_delay: Duration::from_secs(4) };
    let err = make_error(ErrorCategory::Transient);
    let new = state.on_error(&err, Some(3), delay);
    assert_eq!(new, ReconnectState::Stopped);
}

#[test]
fn test_classify_ok_stops() {
    let mut state = ReconnectState::Active;
    let result: UsbIpResult<()> = Ok(());
    let decision = classify_and_backoff(&result, &mut state, None, delay);
    assert!(decision.is_none());
    assert_eq!(state, ReconnectState::Stopped);
}

#[test]
fn test_classify_transient_returns_delay() {
    let mut state = ReconnectState::Active;
    let result: UsbIpResult<()> = Err(make_error(ErrorCategory::Transient));
    let decision = classify_and_backoff(&result, &mut state, None, delay);
    assert!(decision.is_some());
    assert!(matches!(state, ReconnectState::BackOff { attempt: 0, .. }));
}

#[test]
fn test_classify_permanent_returns_none() {
    let mut state = ReconnectState::Active;
    let result: UsbIpResult<()> = Err(make_error(ErrorCategory::Permanent));
    let decision = classify_and_backoff(&result, &mut state, None, delay);
    assert!(decision.is_none());
    assert_eq!(state, ReconnectState::Stopped);
}

#[test]
fn test_decide_reconnect_ok_stops() {
    let mut state = ReconnectState::Active;
    let result: UsbIpResult<()> = Ok(());
    match decide_reconnect(&result, &mut state, None, delay) {
        ReconnectDecision::Stop => {},
        _ => panic!("expected Stop"),
    }
}

#[test]
fn test_decide_reconnect_transient_retries() {
    let mut state = ReconnectState::Active;
    let result: UsbIpResult<()> = Err(make_error(ErrorCategory::Transient));
    match decide_reconnect(&result, &mut state, None, delay) {
        ReconnectDecision::RetryAfter(_) => {},
        _ => panic!("expected RetryAfter"),
    }
}

#[test]
fn test_decide_reconnect_permanent_stops() {
    let mut state = ReconnectState::Active;
    let result: UsbIpResult<()> = Err(make_error(ErrorCategory::Permanent));
    match decide_reconnect(&result, &mut state, None, delay) {
        ReconnectDecision::Stop => {},
        _ => panic!("expected Stop"),
    }
}

#[test]
fn backoff_delay_is_the_policy_delay_for_the_attempt() {
    let err = make_error(ErrorCategory::Transient);
    let s1 = ReconnectState::Active.on_error(&err, None, delay);
    assert_eq!(s1, ReconnectState::BackOff { attempt: 0, next_delay: Duration::from_secs(1) });
    let s2 = s1.on_error(&err, None, delay);
    assert_eq!(s2, ReconnectState::BackOff { attempt: 1, next_delay: Duration::from_secs(2) });
}

#[test]
fn stopped_stays_stopped() {
    for c in [ErrorCategory::Transient, ErrorCategory::Permanent, ErrorCategory::Fatal] {
        let err = make_error(c);
        assert_eq!(ReconnectState::Stopped.on_error(&err, None, delay), ReconnectState::Stopped);
    }
}

#[test]
fn decide_on_success_keeps_state() {
    let mut state = ReconnectState::BackOff { attempt: 4, next_delay: Duration::from_secs(9) };
    let result: UsbIpResult<()> = Ok(());
    assert!(matches!(decide_reconnect(&result, &mut state, None, delay), ReconnectDecision::Stop));
    assert_eq!(state, ReconnectState::BackOff { attempt: 4, next_delay: Duration::from_secs(9) });
}

#[test]
fn decide_retry_after_carries_delay() {
    let mut state = ReconnectState::BackOff { attempt: 1, next_delay: Duration::from_secs(2) };
    let result: UsbIpResult<()> = Err(make_error(ErrorCategory::Transient));
    match decide_reconnect(&result, &mut state, None, delay) {
        ReconnectDecision::RetryAfter(d) => assert_eq!(d, Duration::from_secs(4)),
        ReconnectDecision::Stop => panic!("expected RetryAfter"),
    }
    assert_eq!(state, ReconnectState::BackOff { attempt: 2, next_delay: Duration::from_secs(4) });
}

#[test]
fn test_after_forwarding_stops_on_clean_end_or_without_auto_reconnect() {
    let mut state = ReconnectState::Active;
    let ok: UsbIpResult<()> = Ok(());
    assert!(matches!(after_forwarding(&ok, true, &mut state, None, delay), ReconnectDecision::Stop));
    assert_eq!(state, ReconnectState::Active);

    let err: UsbIpResult<()> = Err(make_error(ErrorCategory::Transient));
    assert!(matches!(
        after_forwarding(&err, false, &mut state, None, delay),
        ReconnectDecision::Stop
    ));
    assert_eq!(state, ReconnectState::Active);
}

#[test]
fn test_after_forwarding_backs_off_on_transient_error() {
    let mut state = ReconnectState::Active;
    let err: UsbIpResult<()> = Err(make_error(ErrorCategory::Transient));
    match after_forwarding(&err, true, &mut state, Some(3), delay) {
        ReconnectDecision::RetryAfter(d) => assert_eq!(d, Duration::from_secs(1)),
        ReconnectDecision::Stop => panic!("expected a retry"),
    }
    assert_eq!(state, ReconnectState::BackOff { attempt: 0, next_delay: Duration::from_secs(1) });
    let perm: UsbIpResult<()> = Err(make_error(ErrorCategory::Permanent));
    assert!(matches!(
        after_forwarding(&perm, true, &mut state, Some(3), delay),
        ReconnectDecision::Stop
    ));
    assert_eq!(state, ReconnectState::Stopped);
}

#[test]
fn non_transient_errors_and_stopped_never_ask_for_a_delay() {
    let never = |_: u32| -> Duration { panic!("no retry follows") };
    let states = [
        ReconnectState::Active,
        ReconnectState::BackOff { attempt: u32::MAX, next_delay: Duration::from_secs(1) },
        ReconnectState::Stopped,
    ];
    for s in states {
        for category in [ErrorCategory::Permanent, ErrorCategory::Fatal] {
            assert_eq!(s.on_error(&make_error(category), Some(3), never), ReconnectState::Stopped);
        }
    }
    let transient = make_error(ErrorCategory::Transient);
    assert_eq!(ReconnectState::Stopped.on_error(&transient, None, never), ReconnectState::Stopped);
    let spent = ReconnectState::BackOff { attempt: 2, next_delay: Duration::from_secs(4) };
    assert_eq!(spent.on_error(&transient, Some(3), never), ReconnectState::Stopped);
}
