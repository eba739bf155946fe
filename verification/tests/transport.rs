use drcom_campus::transport::{receive_verdict, ReceiveVerdict, TransportErrorKind};

#[test]
fn a_failed_receive_is_judged_by_its_kind() {
    assert_eq!(
        receive_verdict(&TransportErrorKind::TimedOut, true),
        ReceiveVerdict::NoResponse
    );
    assert_eq!(
        receive_verdict(&TransportErrorKind::WouldBlock, false),
        ReceiveVerdict::NoResponse
    );
    assert_eq!(
        receive_verdict(&TransportErrorKind::ConnectionReset, true),
        ReceiveVerdict::KeepWaiting
    );
    assert_eq!(
        receive_verdict(&TransportErrorKind::ConnectionReset, false),
        ReceiveVerdict::Failed
    );
}

#[test]
fn failures_are_named() {
    assert_eq!(TransportErrorKind::NetworkDown.name(), "NetworkDown");
    assert_eq!(
        TransportErrorKind::Unlisted("Other".to_string()).name(),
        "Other"
    );
}
