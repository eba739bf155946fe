use drcom_campus::login_response::LoginFailure;
use drcom_campus::reconnect::{
    describe_failure, retryable_error, sleep_step, ReconnectBackoff, SLEEP_STEP_MS,
};
use drcom_campus::session::SessionError;
use drcom_campus::transport::TransportErrorKind;

#[test]
fn reconnect_only_retries_recoverable_network_errors() {
    assert!(retryable_error(&SessionError::NoResponse("keepalive")));
    assert!(retryable_error(&SessionError::Transport(
        TransportErrorKind::NetworkDown
    )));
    assert!(!retryable_error(&SessionError::Transport(
        TransportErrorKind::AddrInUse
    )));
    assert!(!retryable_error(&SessionError::Transport(
        TransportErrorKind::PermissionDenied
    )));
    assert!(!retryable_error(&SessionError::Stopped));
    assert!(!retryable_error(&SessionError::Challenge("invalid reply")));
}

#[test]
fn reconnect_delay_doubles_then_holds_at_the_ceiling() {
    let mut backoff = ReconnectBackoff::new();
    let seen: Vec<u64> = (0..8).map(|_| backoff.next_delay()).collect();
    assert_eq!(seen[..4], [5, 10, 20, 40], "delay should double each time");
    assert_eq!(
        *seen.last().unwrap(),
        120,
        "delay should stop at the ceiling"
    );
    assert!(
        seen.windows(2).all(|pair| pair[1] >= pair[0]),
        "delay must never shrink on its own: {seen:?}"
    );
    backoff.reset();
    assert_eq!(
        backoff.next_delay(),
        5,
        "a session that held starts the next wait over"
    );
}

#[test]
fn a_failure_shows_the_advice_next_to_the_reason() {
    let text = describe_failure(&SessionError::NoResponse("keepalive"), &[]);
    assert!(
        text.contains("keepalive"),
        "the reason must survive: {text}"
    );
    assert!(
        text.contains("网线"),
        "an unanswered server should suggest checking the cable: {text}"
    );
    let rejected = describe_failure(
        &SessionError::Rejected(LoginFailure {
            code: 2,
            ip: None,
            mac: None,
            message: None,
        }),
        &[],
    );
    assert!(!rejected.contains('｜'), "got {rejected}");
}

#[test]
fn a_decoded_explanation_replaces_the_code() {
    let error = SessionError::Rejected(LoginFailure {
        code: 21,
        ip: None,
        mac: None,
        message: Some(vec![0xc7, 0xb7]),
    });
    assert_eq!(
        describe_failure(&error, &[0x6b20, 0x8d39]),
        "欠费（错误码 21）"
    );
    assert_eq!(
        describe_failure(&error, &[]),
        "\u{01f7}（错误码 21）",
        "without a conversion the bytes are read as UTF-8"
    );
}

#[test]
fn a_wait_is_cut_into_short_steps() {
    assert_eq!(SLEEP_STEP_MS, 100);
    assert_eq!(sleep_step(250, 100), 100);
    assert_eq!(sleep_step(100, 100), 100);
    assert_eq!(sleep_step(250, 50), 50);
    assert_eq!(sleep_step(30, 100), 30);
    assert_eq!(sleep_step(0, 100), 0);
}
