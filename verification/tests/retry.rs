use drcom_campus::net::Ipv4Addr;
use drcom_campus::retry::{LoginRetry, LoginTimeout, RetryConfigError};

#[test]
fn three_sends_then_failover_then_exhaustion() {
    let first = Ipv4Addr::new(10, 0, 0, 1);
    let second = Ipv4Addr::new(10, 0, 0, 2);
    let mut retry = LoginRetry::new(vec![first, second]).unwrap();
    assert_eq!(retry.current_server(), first);
    assert_eq!(
        retry.on_login_timeout(),
        LoginTimeout::RetrySameServer(first)
    );
    assert_eq!(
        retry.on_login_timeout(),
        LoginTimeout::RetrySameServer(first)
    );
    assert_eq!(retry.on_login_timeout(), LoginTimeout::SwitchServer(second));
    assert_eq!(
        retry.on_login_timeout(),
        LoginTimeout::RetrySameServer(second)
    );
    assert_eq!(
        retry.on_login_timeout(),
        LoginTimeout::RetrySameServer(second)
    );
    assert_eq!(retry.on_login_timeout(), LoginTimeout::AllServersExhausted);
    assert_eq!(retry.current_server(), first);
}

#[test]
fn loopback_is_only_accepted_for_tests() {
    assert_eq!(
        LoginRetry::new(vec![Ipv4Addr::localhost()]).unwrap_err(),
        RetryConfigError::InvalidServer(Ipv4Addr::localhost())
    );
    let retry = LoginRetry::new_accepting_loopback(vec![Ipv4Addr::localhost()]).unwrap();
    assert_eq!(retry.current_server(), Ipv4Addr::localhost());
    assert_eq!(
        LoginRetry::new_accepting_loopback(vec![Ipv4Addr::unspecified()]).unwrap_err(),
        RetryConfigError::InvalidServer(Ipv4Addr::unspecified())
    );
}

#[test]
fn an_empty_list_has_no_server() {
    assert_eq!(
        LoginRetry::new(vec![]).unwrap_err(),
        RetryConfigError::NoServers
    );
}

#[test]
fn the_first_unusable_server_is_named() {
    let good = Ipv4Addr::new(10, 0, 0, 1);
    let broadcast = Ipv4Addr::broadcast();
    assert_eq!(
        LoginRetry::new(vec![good, broadcast, Ipv4Addr::unspecified()]).unwrap_err(),
        RetryConfigError::InvalidServer(broadcast)
    );
}
