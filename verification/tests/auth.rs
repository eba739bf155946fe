use drcom_campus::auth::{
    build_reference_login, connect_challenge, connect_challenge_with, current_challenge_nonce,
    exchange_challenge, exchange_logout_challenge, run_challenge_retries, ChallengeConnectError,
    ChallengeExchangeError, ChallengeReceipt, ExchangeStep, LOGOUT_PAUSE_MS,
};
use drcom_campus::net::{Ipv4Addr, SocketAddrV4};
use drcom_campus::reference_login::{build_login_packet, BuildError, ReferenceLoginConfig};
use drcom_campus::retry::LoginRetry;
use drcom_campus::transport::TransportErrorKind;

fn endpoint(d: u8, port: u16) -> SocketAddrV4 {
    SocketAddrV4 {
        ip: Ipv4Addr::new(127, 0, 0, d),
        port,
    }
}

#[test]
fn exchanges_challenge_and_ignores_stale_nonce_on_loopback() {
    let destination = endpoint(1, 61440);
    let exchange = exchange_challenge(destination, 7, 0x1234, 9);
    let buffer = exchange.request();
    assert_eq!(buffer.len(), 20);
    assert_eq!(&buffer[..5], &[1, 7, 0x34, 0x12, 9]);

    let mut reply = [0u8; 0x2c];
    reply[..4].copy_from_slice(&[2, 7, 0x35, 0x12]);
    assert_eq!(exchange.receive(destination, &reply), ExchangeStep::Ignore);
    reply[2] = 0x34;
    reply[4..8].copy_from_slice(&[1, 2, 3, 4]);
    reply[0x2a..0x2c].copy_from_slice(&0x8001u16.to_le_bytes());
    match exchange.receive(destination, &reply) {
        ExchangeStep::Accepted(receipt) => {
            assert_eq!(receipt.source, destination);
            assert_eq!(receipt.challenge, [1, 2, 3, 4]);
            assert_eq!(receipt.system_auth_option, 0x8001);
            assert_eq!(receipt.datagram, reply);
        }
        other => panic!("expected a receipt, got {other:?}"),
    }
}

#[test]
fn timeout_retries_three_times_then_uses_next_server() {
    let first = Ipv4Addr::new(10, 0, 0, 1);
    let second = Ipv4Addr::new(10, 0, 0, 2);
    let mut retry = LoginRetry::new(vec![first, second]).unwrap();
    let mut sequence = 250;
    let mut attempted = Vec::new();
    let receipt = loop {
        let exchange = connect_challenge_with(&retry, &mut sequence, 61440, 9, 0x1234);
        attempted.push((exchange.destination.ip, exchange.sequence, exchange.nonce));
        if exchange.destination.ip == first {
            assert_eq!(
                run_challenge_retries(&mut retry, ChallengeExchangeError::TimedOut),
                None
            );
        } else {
            break ChallengeReceipt {
                source: exchange.destination,
                challenge: [1, 2, 3, 4],
                system_auth_option: 0,
                datagram: vec![],
            };
        }
    };
    assert_eq!(receipt.challenge, [1, 2, 3, 4]);
    assert_eq!(receipt.source.port, 61440);
    assert_eq!(attempted.len(), 4);
    assert_eq!(attempted[0], (first, 251, 0x1234));
    assert_eq!(attempted[1], (first, 252, 0x1234));
    assert_eq!(attempted[2], (first, 253, 0x1234));
    assert_eq!(attempted[3], (second, 254, 0x1234));
    assert_eq!(retry.current_server(), second);
    assert_eq!(sequence, 254);
}

#[test]
fn logout_preflight_sends_ping_before_new_challenge() {
    // The ping goes out first and is followed by a pause; the challenge of the logout is this one.
    assert_eq!(LOGOUT_PAUSE_MS, 500);
    let destination = endpoint(1, 61440);
    let exchange = exchange_logout_challenge(destination, 8, 0x1234, 9);
    let buffer = exchange.request();
    assert_eq!(buffer.len(), 20);
    assert_eq!(&buffer[..5], &[1, 8, 0x34, 0x12, 9]);
    let mut reply = [0u8; 0x2c];
    reply[..4].copy_from_slice(&[2, 8, 0x34, 0x12]);
    reply[4..8].copy_from_slice(&[4, 3, 2, 1]);
    match exchange.receive(destination, &reply) {
        ExchangeStep::Accepted(receipt) => assert_eq!(receipt.challenge, [4, 3, 2, 1]),
        other => panic!("expected a receipt, got {other:?}"),
    }
}

#[test]
fn a_logout_only_listens_to_the_online_server() {
    let online = endpoint(1, 61440);
    let stranger = endpoint(2, 61440);
    let mut reply = [0u8; 0x2c];
    reply[..4].copy_from_slice(&[2, 8, 0x34, 0x12]);
    let logout = exchange_logout_challenge(online, 8, 0x1234, 9);
    assert_eq!(logout.receive(stranger, &reply), ExchangeStep::Ignore);
    assert_eq!(logout.receive(stranger, &[5]), ExchangeStep::Ignore);
    let login = exchange_challenge(online, 8, 0x1234, 9);
    assert!(matches!(
        login.receive(stranger, &reply),
        ExchangeStep::Accepted(_)
    ));
}

#[test]
fn a_refused_challenge_ends_the_exchange() {
    let exchange = exchange_challenge(endpoint(1, 61440), 8, 0x1234, 9);
    assert_eq!(exchange.receive(endpoint(1, 61440), &[5, 0]), ExchangeStep::Rejected);
    assert_eq!(exchange.receive(endpoint(1, 61440), &[]), ExchangeStep::Ignore);
    let mut retry = LoginRetry::new(vec![Ipv4Addr::new(10, 0, 0, 1)]).unwrap();
    assert_eq!(
        run_challenge_retries(&mut retry, ChallengeExchangeError::Rejected),
        Some(ChallengeConnectError::Exchange(
            ChallengeExchangeError::Rejected
        ))
    );
    let failed = ChallengeExchangeError::Io(TransportErrorKind::NetworkDown);
    assert_eq!(
        run_challenge_retries(&mut retry, failed.clone()),
        Some(ChallengeConnectError::Exchange(failed))
    );
}

#[test]
fn the_last_timeout_exhausts_the_servers() {
    let mut retry = LoginRetry::new(vec![Ipv4Addr::new(10, 0, 0, 1)]).unwrap();
    for _ in 0..2 {
        assert_eq!(
            run_challenge_retries(&mut retry, ChallengeExchangeError::TimedOut),
            None
        );
    }
    assert_eq!(
        run_challenge_retries(&mut retry, ChallengeExchangeError::TimedOut),
        Some(ChallengeConnectError::AllServersTimedOut)
    );
}

#[test]
fn the_sequence_wraps_and_the_nonce_follows_the_clock() {
    let retry = LoginRetry::new(vec![Ipv4Addr::new(10, 0, 0, 1)]).unwrap();
    let mut sequence = 255;
    let exchange = connect_challenge(&retry, &mut sequence, 61440, 9, 1_595_812_411);
    assert_eq!(sequence, 0);
    assert_eq!(exchange.sequence, 0);
    assert_eq!(exchange.nonce, current_challenge_nonce(1_595_812_411));
    assert_eq!(exchange.nonce, 0x2a3b);
}

#[test]
fn the_login_frame_uses_the_challenge_of_the_receipt() {
    let config = ReferenceLoginConfig {
        host_ipv4: [10, 0, 0, 9],
        mac: 0x1122_8877_6655,
        hostname: b"TESTHOST".to_vec(),
        primary_dns: [10, 10, 10, 10],
        dhcp_server: [0, 0, 0, 0],
        auth_version: [0x68, 0x00],
        control_status: 0x20,
        adapter_num: 0x03,
        ip_dog: 0x01,
    };
    let receipt = ChallengeReceipt {
        source: endpoint(1, 61440),
        challenge: [9, 8, 7, 6],
        system_auth_option: 0,
        datagram: vec![],
    };
    assert_eq!(
        build_reference_login(&receipt, b"u", b"p", &config),
        build_login_packet(&[9, 8, 7, 6], b"u", b"p", &config)
    );
    assert_eq!(
        build_reference_login(&receipt, &[b'u'; 37], b"p", &config),
        Err(BuildError::UsernameTooLong)
    );
}
