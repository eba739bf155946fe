use drcom_campus::login_response::LoginFailure;
use drcom_campus::auth::LOGOUT_PAUSE_MS;
use drcom_campus::net::{Ipv4Addr, SocketAddrV4};
use drcom_campus::protocol::LogoutPacketError;
use drcom_campus::reference_login::{first_digest, BuildError};
use drcom_campus::retry::RetryConfigError;
use drcom_campus::route::{
    InstalledRoute, RouteAction, RouteError, RouteMode, RouteOutcome, RoutePlan, RouteReport,
    RouteRequest,
};
use drcom_campus::session::{
    keepalive_stage, report_text, restore_auth_route, Action, GuardRequest, LoginSession, Moment,
    SessionConfig, SessionError, SessionEvent, SessionInput, SessionPhase, Turn,
    CHALLENGE_CLIENT_OPTION, FIRST_CHALLENGE_SEQUENCE, SLEEP_STEP_MS,
};
use drcom_campus::keepalive::KeepAlivePacketType;
use drcom_campus::transport::TransportErrorKind;

const SALT: [u8; 4] = [0x1a, 0x2b, 0x3c, 0x4d];
const COOKIE: [u8; 16] = [
    0x10, 0x11, 0x12, 0x13, 0x14, 0x15, 0x16, 0x17, 0x18, 0x19, 0x1a, 0x1b, 0x1c, 0x1d, 0x1e, 0x1f,
];

/// Version pair that the server advertises at offsets 28..30. Deliberately not the client's own
/// constant, so that a test can tell whether the server's value was adopted.
const NEGOTIATED: [u8; 2] = [0x34, 0x12];

const LOGIN_FRAME: &str = "0301001c5bc81b0150f9443fd09843b0cf22c4bd7465737475736572000000000000000000000000\
    0000000000000000000000000000000020034aea937636acd73bc3d8a499b1475443e26b84f17ff1\
    010a00000900000000000000000000000055ddd8a146e79285010000000054455354484f53540000\
    000000000000000000000000000000000000000000000a0a0a0a0000000000000000000000000000\
    0000940000000600000002000000f0230000020000004472434f4d00cf0768000000000000000000\
    00000000000000000000000000000000000000000000000000000000000000000000000000000000\
    00000000000033646337396635323132653831373061636661396563393566316437343931363534\
    32626537623100000000000000000000000000000000000000000000000068000008796d43ab01c4\
    b962020c90992baa0000112288776655000060a20000000000000000000000000000000000000000\
    0000000000000000";

fn bytes_of(hex: &str) -> Vec<u8> {
    (0..hex.len() / 2)
        .map(|index| u8::from_str_radix(&hex[2 * index..2 * index + 2], 16).unwrap())
        .collect()
}

/// How the server answers, so that each test can drive one branch.
#[derive(Clone, Copy, PartialEq)]
enum Behaviour {
    /// Challenge, then a successful login, then keep-alive until one cycle is complete.
    Serving,
    /// Reject the login frame with error code 5.
    RejectLogin,
    /// Answer the first keep-alive with a `07 .. 10` message packet, then serve.
    AnnounceMessage,
    /// Serve eleven complete rounds.
    ElevenCycles,
    /// Stop the client while it waits for the answer to the primary keep-alive.
    StopOnPrimary,
    /// Serve the login and the primary keep-alive, then go quiet.
    QuietKeepAlive,
    /// Answer every type 3 keep-alive with a `07 .. 10` message packet.
    OnlyMessages,
    /// Answer every type 3 keep-alive with a datagram that is no keep-alive reply.
    OnlyGarbage,
    /// Answer the login frame with a success that ends before its cookie.
    ShortSuccess,
    /// Never answer.
    Silent,
}

fn challenge_reply(sequence: u8, nonce: u16) -> Vec<u8> {
    let mut reply = vec![0u8; 0x2c];
    reply[0] = 0x02;
    reply[1] = sequence;
    reply[2..4].copy_from_slice(&nonce.to_le_bytes());
    reply[4..8].copy_from_slice(&SALT);
    reply[0x2a..0x2c].copy_from_slice(&0x8001u16.to_le_bytes());
    reply
}

/// A keep-alive reply. `message` selects the `07 .. 10` form that pushes a message.
fn keepalive_reply(sequence: u8, message: bool, version: [u8; 2]) -> Vec<u8> {
    let mut reply = vec![0u8; 30];
    reply[0] = 0x07;
    reply[1] = sequence;
    reply[2] = if message { 0x10 } else { 0x28 };
    reply[16..20].copy_from_slice(&[0xde, 0xad, 0xbe, 0xef]);
    reply[28..30].copy_from_slice(&version);
    reply
}

/// A stand-in for the authentication server, the socket and the clock.
struct World {
    behaviour: Behaviour,
    stop: bool,
    uptime_ms: u64,
    timeout_ms: u64,
    seen: Vec<Vec<u8>>,
    replies: Vec<(SocketAddrV4, Vec<u8>)>,
    keepalive_replies: usize,
    type3_seen: usize,
    events: Vec<SessionEvent>,
}

impl World {
    fn new(behaviour: Behaviour) -> Self {
        World {
            behaviour,
            stop: false,
            uptime_ms: 1000,
            timeout_ms: 500,
            seen: Vec::new(),
            replies: Vec::new(),
            keepalive_replies: 0,
            type3_seen: 0,
            events: Vec::new(),
        }
    }

    fn now(&self) -> Moment {
        Moment {
            unix_seconds: 1_595_812_411 + self.uptime_ms / 1000,
            uptime_ms: self.uptime_ms,
            stopped: self.stop,
        }
    }

    fn answer(&mut self, datagram: &[u8]) -> Option<Vec<u8>> {
        match (datagram[0], self.behaviour) {
            (_, Behaviour::Silent) => None,
            (0x01, _) => Some(challenge_reply(
                datagram[1],
                u16::from_le_bytes([datagram[2], datagram[3]]),
            )),
            (0x03, Behaviour::RejectLogin) => {
                let mut reply = vec![0u8; 5];
                reply[0] = 0x05;
                reply[4] = 5;
                Some(reply)
            }
            (0x03, Behaviour::ShortSuccess) => {
                let mut reply = vec![0u8; 38];
                reply[0] = 0x04;
                Some(reply)
            }
            (0x03, _) => {
                let mut reply = vec![0u8; 39];
                reply[0] = 0x04;
                reply[23..39].copy_from_slice(&COOKIE);
                Some(reply)
            }
            (0xff, Behaviour::StopOnPrimary) => {
                self.stop = true;
                None
            }
            (0xff, _) => Some(keepalive_reply(0, false, NEGOTIATED)),
            (0x07, Behaviour::QuietKeepAlive) => None,
            (0x07, Behaviour::OnlyMessages) if datagram[5] == 3 => {
                Some(keepalive_reply(datagram[1], true, NEGOTIATED))
            }
            (0x07, Behaviour::OnlyGarbage) if datagram[5] == 3 => Some(vec![0x4d; 30]),
            (0x07, behaviour) => {
                let message =
                    behaviour == Behaviour::AnnounceMessage && self.keepalive_replies == 0;
                if datagram[5] == 3 {
                    let wanted = match behaviour {
                        Behaviour::ElevenCycles => 11,
                        _ => 1,
                    };
                    self.type3_seen += 1;
                    if self.type3_seen >= wanted {
                        self.stop = true;
                    }
                }
                self.keepalive_replies += 1;
                Some(keepalive_reply(datagram[1], message, NEGOTIATED))
            }
            _ => None,
        }
    }

    /// Performs what the session asks for until it is finished.
    fn drive(&mut self, session: &mut LoginSession, first: Turn) -> Result<(), SessionError> {
        let mut turn = first;
        loop {
            self.events.extend(turn.events);
            let input = match turn.action {
                Action::Send { to, datagram } => {
                    if let Some(reply) = self.answer(&datagram) {
                        self.replies.push((to, reply));
                    }
                    self.seen.push(datagram);
                    SessionInput::Sent
                }
                Action::Receive | Action::KeepReceiving => {
                    if self.replies.is_empty() {
                        self.uptime_ms += self.timeout_ms;
                        SessionInput::TimedOut
                    } else {
                        let (source, datagram) = self.replies.remove(0);
                        self.uptime_ms += 1;
                        SessionInput::Received { source, datagram }
                    }
                }
                Action::Sleep { ms, interruptible } => {
                    let completed = !(interruptible && self.stop);
                    if completed {
                        self.uptime_ms += ms;
                    }
                    SessionInput::Slept { completed }
                }
                Action::Resync { ms } => {
                    self.replies.clear();
                    self.uptime_ms += ms;
                    SessionInput::Slept {
                        completed: !self.stop,
                    }
                }
                Action::Finished(result) => return result,
            };
            assert!(session.expects(&input));
            turn = session.step(input, self.now());
        }
    }

    fn login(&mut self, session: &mut LoginSession) -> Result<(), SessionError> {
        let turn = session.login(self.now());
        self.drive(session, turn)
    }

    fn run(&mut self, session: &mut LoginSession) -> Result<(), SessionError> {
        let turn = session.run(self.now());
        self.drive(session, turn)
    }

    fn notes(&self) -> Vec<String> {
        self.events
            .iter()
            .filter_map(|event| match event {
                SessionEvent::Note(note) => Some(note.clone()),
                _ => None,
            })
            .collect()
    }

    fn keepalive(&self) -> Vec<&Vec<u8>> {
        self.seen
            .iter()
            .filter(|datagram| datagram.first() == Some(&0x07))
            .collect()
    }
}

fn session_config() -> SessionConfig {
    let mut config = SessionConfig::new(
        vec![Ipv4Addr::localhost()],
        b"testuser".to_vec(),
        b"testpass".to_vec(),
    );
    config.server_port = 61440;
    config.local_ipv4 = Ipv4Addr::new(10, 0, 0, 9);
    config.bind_ipv4 = Some(Ipv4Addr::localhost());
    config.local_port = 0;
    config.hostname = b"TESTHOST".to_vec();
    config.mac = 0x1122_8877_6655;
    config.request_timeout_ms = 500;
    config.keepalive_interval_ms = 200;
    config.keepalive_retries = 2;
    config.allow_loopback_server = true;
    config
}

#[test]
fn stopping_during_keepalive_receive_still_sends_logout() {
    let mut world = World::new(Behaviour::StopOnPrimary);
    let mut session = LoginSession::new(session_config()).unwrap();
    world.run(&mut session).unwrap();
    assert!(
        world.seen.iter().any(|datagram| datagram[0] == 0x06),
        "stopping while awaiting keepalive must send the logout frame"
    );
}

#[test]
fn login_sends_the_reference_frame_and_captures_the_cookie() {
    let mut world = World::new(Behaviour::Serving);
    let mut session = LoginSession::new(session_config()).unwrap();
    world.login(&mut session).unwrap();
    assert_eq!(session.session_cookie(), COOKIE);

    let challenge = &world.seen[0];
    assert_eq!(challenge.len(), 20);
    assert_eq!(challenge[0], 0x01);
    assert_eq!(challenge[1], FIRST_CHALLENGE_SEQUENCE);
    assert_eq!(challenge[4], CHALLENGE_CLIENT_OPTION);
    assert_eq!(world.seen[1], bytes_of(LOGIN_FRAME));
    assert!(world.notes().iter().any(|note| note.contains("认证成功")));
}

#[test]
fn login_rejection_stops_without_retrying() {
    let mut world = World::new(Behaviour::RejectLogin);
    let mut session = LoginSession::new(session_config()).unwrap();
    let error = world.login(&mut session).unwrap_err();
    assert_eq!(
        error,
        SessionError::Rejected(LoginFailure {
            code: 5,
            ip: None,
            mac: None,
            message: None,
        })
    );
    assert_eq!(world.seen.len(), 2);
}

#[test]
fn challenge_timeout_exhausts_the_shared_retry_budget() {
    let mut world = World::new(Behaviour::Silent);
    let mut config = session_config();
    config.request_timeout_ms = 50;
    world.timeout_ms = 50;
    config.servers = vec![Ipv4Addr::localhost()];
    let mut session = LoginSession::new(config).unwrap();
    let error = world.login(&mut session).unwrap_err();
    assert_eq!(error, SessionError::NoResponse("挑战"));
    assert_eq!(world.seen.len(), 3);
}

#[test]
fn keepalive_runs_one_cycle_then_stops_cleanly() {
    let mut world = World::new(Behaviour::Serving);
    let mut session = LoginSession::new(session_config()).unwrap();
    world.run(&mut session).unwrap();
    let cycles = world
        .events
        .iter()
        .filter(|event| matches!(event, SessionEvent::KeepAliveCycle { .. }))
        .count();
    assert!(cycles >= 1, "the session must complete a keep-alive cycle");
    assert!(world.stop);

    let keepalive = world.keepalive();
    assert_eq!(
        keepalive[0][5], 1,
        "first packet after the primary is the extra form"
    );
    assert_eq!(
        &keepalive[0][6..8],
        &[0x0f, 0x27],
        "the extra form is a handshake"
    );
    assert_eq!(keepalive[0][1], 0);
    assert_eq!(
        keepalive[1][1], 1,
        "the type 1 pair follows the extra packet"
    );
    assert_eq!(&keepalive[1][6..8], &NEGOTIATED);
    assert_eq!(keepalive[2][5], 3, "then the type 3 packet");
    assert_eq!(keepalive[2][1], 2);
    assert_eq!(&keepalive[2][24..28], &[0u8; 4]);

    let primary = world
        .seen
        .iter()
        .find(|datagram| datagram.first() == Some(&0xff))
        .expect("the primary keep-alive must be sent first");
    assert_eq!(primary.len(), 42);
    let digest = first_digest(&SALT, b"testpass");
    assert_eq!(&primary[1..17], &digest);
    assert_eq!(&primary[20..36], &COOKIE);
    assert!(primary[38..].iter().all(|byte| *byte == 0));
}

#[test]
fn a_message_packet_is_resent_rather_than_taken_as_an_acknowledgement() {
    let mut world = World::new(Behaviour::AnnounceMessage);
    let mut session = LoginSession::new(session_config()).unwrap();
    world.run(&mut session).unwrap();

    let notes = world.notes();
    let keepalive = world.keepalive();
    assert_eq!(keepalive[0][5], 1);
    assert_eq!(&keepalive[0][6..8], &[0x0f, 0x27]);
    assert_eq!(keepalive[0][1], 0);
    assert_eq!(keepalive[1][5], 1);
    assert_eq!(&keepalive[1][6..8], &NEGOTIATED);
    assert_eq!(keepalive[1][1], 1, "the resent packet advances the counter");
    assert!(
        notes.iter().any(|note| note.contains("推送")),
        "the message must be reported, got {notes:?}"
    );
}

#[test]
fn the_extra_packet_returns_every_tenth_keep_alive() {
    let mut world = World::new(Behaviour::ElevenCycles);
    let mut session = LoginSession::new(session_config()).unwrap();
    world.run(&mut session).unwrap();

    let keepalive = world.keepalive();
    let extras: Vec<usize> = keepalive
        .iter()
        .enumerate()
        .filter(|(_, packet)| packet[6] == 0x0f && packet[7] == 0x27)
        .map(|(index, _)| index)
        .collect();
    assert_eq!(extras, vec![0, 21], "got {extras:?}");
    assert_eq!(
        keepalive[21][1], 21,
        "the counter a packet carries is its own number"
    );
}

#[test]
fn a_run_goes_through_its_phases_in_order() {
    let mut world = World::new(Behaviour::Serving);
    let mut session = LoginSession::new(session_config()).unwrap();
    world.run(&mut session).unwrap();
    let phases: Vec<SessionPhase> = world
        .events
        .iter()
        .filter_map(|event| match event {
            SessionEvent::Phase(phase) => Some(*phase),
            _ => None,
        })
        .collect();
    assert_eq!(phases[0], SessionPhase::Challenge);
    assert!(phases.contains(&SessionPhase::Authenticating));
    assert!(phases.contains(&SessionPhase::Online));
    assert!(phases.contains(&SessionPhase::KeepAlive));
    assert_eq!(phases.last(), Some(&SessionPhase::LoggedOut));
    assert!(session.connected_for(world.uptime_ms).is_some());
}

#[test]
fn a_quiet_server_ends_the_keepalive() {
    let mut world = World::new(Behaviour::QuietKeepAlive);
    let mut session = LoginSession::new(session_config()).unwrap();
    let error = world.run(&mut session).unwrap_err();
    assert!(matches!(error, SessionError::NoResponse(_)), "{error:?}");
}

#[test]
fn a_stopped_login_sends_nothing() {
    let mut world = World::new(Behaviour::Serving);
    world.stop = true;
    let mut session = LoginSession::new(session_config()).unwrap();
    assert_eq!(world.login(&mut session), Err(SessionError::Stopped));
    assert!(world.seen.is_empty());
}

#[test]
fn a_failed_send_ends_the_login() {
    let mut session = LoginSession::new(session_config()).unwrap();
    let now = Moment {
        unix_seconds: 1_595_812_411,
        uptime_ms: 0,
        stopped: false,
    };
    let turn = session.login(now);
    assert!(matches!(turn.action, Action::Send { .. }));
    let failed = SessionInput::SendFailed(TransportErrorKind::NetworkUnreachable);
    assert!(session.expects(&failed));
    assert!(!session.expects(&SessionInput::TimedOut));
    let turn = session.step(failed, now);
    assert_eq!(
        turn.action,
        Action::Finished(Err(SessionError::Transport(
            TransportErrorKind::NetworkUnreachable
        )))
    );
}

#[test]
fn a_datagram_from_a_stranger_is_ignored_once_the_server_is_known() {
    let mut session = LoginSession::new(session_config()).unwrap();
    let now = Moment {
        unix_seconds: 1_595_812_411,
        uptime_ms: 0,
        stopped: false,
    };
    session.login(now);
    session.step(SessionInput::Sent, now);
    let server = SocketAddrV4 {
        ip: Ipv4Addr::localhost(),
        port: 61440,
    };
    let stranger = SocketAddrV4 {
        ip: Ipv4Addr::new(10, 9, 9, 9),
        port: 61440,
    };
    let turn = session.step(
        SessionInput::Received {
            source: server,
            datagram: challenge_reply(FIRST_CHALLENGE_SEQUENCE, 0x8959),
        },
        now,
    );
    assert!(matches!(turn.action, Action::Send { .. }));
    session.step(SessionInput::Sent, now);
    let mut answer = vec![0u8; 39];
    answer[0] = 0x04;
    let turn = session.step(
        SessionInput::Received {
            source: stranger,
            datagram: answer,
        },
        now,
    );
    assert_eq!(turn.action, Action::KeepReceiving);
}

#[test]
fn a_session_needs_a_usable_list_of_servers() {
    let mut config = session_config();
    config.servers = vec![];
    assert_eq!(
        LoginSession::new(config).unwrap_err(),
        SessionError::Configuration(RetryConfigError::NoServers)
    );
    let mut config = session_config();
    config.allow_loopback_server = false;
    assert_eq!(
        LoginSession::new(config).unwrap_err(),
        SessionError::Configuration(RetryConfigError::InvalidServer(Ipv4Addr::localhost()))
    );
}

#[test]
fn every_error_tells_what_happened() {
    let rejected = |code, message: Option<&[u8]>| {
        SessionError::Rejected(LoginFailure {
            code,
            ip: None,
            mac: None,
            message: message.map(|bytes| bytes.to_vec()),
        })
    };
    let cases = [
        (
            SessionError::Configuration(RetryConfigError::NoServers),
            "认证服务器列表无效：NoServers",
        ),
        (
            SessionError::Transport(TransportErrorKind::NetworkDown),
            "套接字错误：NetworkDown",
        ),
        (SessionError::Challenge("坏回复"), "挑战失败：坏回复"),
        (
            SessionError::Credentials(BuildError::PasswordTooLong),
            "账号或密码长度不合法：PasswordTooLong",
        ),
        (rejected(5, None), "认证被服务器拒绝，错误码 5"),
        (
            rejected(21, Some("欠费".as_bytes())),
            "欠费（错误码 21）",
        ),
        (SessionError::NoResponse("挑战"), "认证服务器未响应：挑战"),
        (SessionError::Stopped, "会话已停止"),
        (
            SessionError::LogoutPacket(LogoutPacketError::PasswordTooLong),
            "下线报文无法构造：PasswordTooLong",
        ),
    ];
    for (error, words) in cases {
        assert_eq!(error.to_text(&[]), words);
    }
    assert_eq!(
        rejected(21, Some(b"raw")).to_text(&[0x8bd1, 0x6587]),
        "译文（错误码 21）"
    );
    assert_eq!(
        rejected(5, None).to_text(&[0x8bd1, 0x6587]),
        "认证被服务器拒绝，错误码 5"
    );
    assert!(SessionError::Transport(TransportErrorKind::AddrInUse)
        .to_text(&[])
        .contains("--local-port 0"));
    assert!(!SessionError::Route(RouteError::NoGateway)
        .to_text(&[])
        .is_empty());
}

#[test]
fn advice_is_given_where_there_is_something_to_do() {
    assert!(SessionError::NoResponse("x").guidance().is_some());
    assert!(SessionError::Transport(TransportErrorKind::AddrInUse)
        .guidance()
        .unwrap()
        .contains("61440"));
    assert_eq!(SessionError::Stopped.guidance(), None);
}

#[test]
fn the_stages_of_a_keepalive_have_names() {
    assert_ne!(
        keepalive_stage(KeepAlivePacketType::Type1),
        keepalive_stage(KeepAlivePacketType::Type3)
    );
}

#[test]
fn route_reports_name_the_route() {
    let plan = RoutePlan {
        server: Ipv4Addr::new(10, 100, 61, 3),
        gateway: Ipv4Addr::new(49, 140, 185, 254),
        interface_index: 7,
    };
    let report = RouteReport {
        plan,
        action: RouteAction::Add,
        result: Ok(()),
    };
    assert_eq!(
        report_text(&report, true),
        "添加认证服务器路由 10.100.61.3 经由 49.140.185.254 IF 7"
    );
    assert_eq!(
        report_text(&report, false),
        "认证服务器路由（试运行，未修改路由表）10.100.61.3 经由 49.140.185.254 IF 7"
    );
    let refused = RouteReport {
        result: Err(RouteError::Refused(87)),
        ..report
    };
    assert_eq!(
        report_text(&refused, true),
        "添加认证服务器路由 10.100.61.3 失败：Refused(87)"
    );
    let removed = restore_auth_route(&InstalledRoute { plan }, Ok(()));
    assert!(removed.contains("10.100.61.3"), "{removed}");
    let kept = restore_auth_route(&InstalledRoute { plan }, Err(RouteError::AccessDenied));
    assert!(kept.contains("AccessDenied"), "{kept}");
}

#[test]
fn a_managed_route_that_cannot_be_installed_fails_the_session() {
    let mut config = session_config();
    config.auth_route = RouteMode::Manage;
    let failed = RouteOutcome {
        installed: Vec::new(),
        already_present: 0,
        failed: vec![(Ipv4Addr::localhost(), RouteError::NoGateway)],
    };
    assert!(config.check_routes(&failed).is_err());
    config.auth_route = RouteMode::DryRun;
    assert!(config.check_routes(&failed).is_ok());
    assert_eq!(config.bind_address(), Ipv4Addr::localhost());
    config.bind_ipv4 = None;
    assert_eq!(config.bind_address(), Ipv4Addr::new(10, 0, 0, 9));
}

#[test]
fn other_credentials_of_the_same_size_are_reported_alike() {
    let mut told: Vec<Vec<SessionEvent>> = Vec::new();
    let mut frames: Vec<Vec<u8>> = Vec::new();
    for (username, password) in [("testuser", "testpass"), ("somebody", "S3cret!?")] {
        let mut config = session_config();
        config.username = username.as_bytes().to_vec();
        config.password = password.as_bytes().to_vec();
        let mut world = World::new(Behaviour::Serving);
        let mut session = LoginSession::new(config).unwrap();
        world.run(&mut session).unwrap();
        for note in world.notes() {
            assert!(!note.contains(username) && !note.contains(password), "{note}");
        }
        frames.push(world.seen[1].clone());
        told.push(world.events);
    }
    assert!(!told[0].is_empty());
    assert_eq!(told[0], told[1]);
    assert_ne!(frames[0], frames[1]);
}

#[test]
fn the_keepalive_can_be_run_on_its_own_after_a_login() {
    let mut world = World::new(Behaviour::Serving);
    let mut session = LoginSession::new(session_config()).unwrap();
    world.login(&mut session).unwrap();
    let sent = world.seen.len();
    let turn = session.run_keepalive(world.now());
    world.drive(&mut session, turn).unwrap();
    assert_eq!(world.seen[sent][0], 0xff);
    assert!(world.seen.iter().all(|datagram| datagram[0] != 0x06));
    assert!(world
        .events
        .iter()
        .any(|event| matches!(event, SessionEvent::KeepAliveCycle { .. })));
}

#[test]
fn a_session_asks_for_the_route_of_each_of_its_servers() {
    let mut config = session_config();
    config.servers = vec![Ipv4Addr::new(10, 100, 61, 3)];
    config.auth_route = RouteMode::DryRun;
    assert!(matches!(
        config.install_auth_route().request(),
        RouteRequest::Resolve(server) if server == Ipv4Addr::new(10, 100, 61, 3)
    ));
    config.auth_route = RouteMode::Off;
    assert!(matches!(config.install_auth_route().request(), RouteRequest::Done));
}

#[test]
fn neither_a_message_nor_garbage_completes_a_packet() {
    for behaviour in [Behaviour::OnlyMessages, Behaviour::OnlyGarbage] {
        let mut world = World::new(behaviour);
        let mut session = LoginSession::new(session_config()).unwrap();
        let error = world.run(&mut session).unwrap_err();
        assert_eq!(error, SessionError::NoResponse("保活 type3"));
        assert!(world
            .events
            .iter()
            .all(|event| !matches!(event, SessionEvent::KeepAliveCycle { .. })));
        // Two sends of the type 3 packet, and the whole round once more after the restart.
        let type3 = world
            .keepalive()
            .iter()
            .filter(|datagram| datagram[5] == 3)
            .count();
        assert_eq!(type3, 4);
        let pushed = world
            .notes()
            .iter()
            .filter(|note| note.contains("推送"))
            .count();
        assert_eq!(pushed, if behaviour == Behaviour::OnlyMessages { 4 } else { 0 });
    }
}

#[test]
fn a_success_without_its_cookie_is_asked_for_again() {
    let mut world = World::new(Behaviour::ShortSuccess);
    let mut session = LoginSession::new(session_config()).unwrap();
    assert!(world.login(&mut session).is_err());
    assert_eq!(session.session_cookie(), [0; 16]);
    assert!(world.notes().iter().any(|note| note.contains("响应过短")));
    assert!(world.notes().iter().all(|note| !note.contains("认证成功")));
}

#[test]
fn a_logout_goes_through_ping_pause_challenge_and_frame() {
    let mut world = World::new(Behaviour::Serving);
    let mut session = LoginSession::new(session_config()).unwrap();
    world.login(&mut session).unwrap();
    // A stop that is wanted already cuts nothing short.
    world.stop = true;

    let mut steps: Vec<String> = Vec::new();
    let mut turn = session.logout(world.now());
    let result = loop {
        let input = match turn.action {
            Action::Send { to, datagram } => {
                assert_eq!(to.ip, Ipv4Addr::localhost());
                steps.push(format!("send {:02x} of {}", datagram[0], datagram.len()));
                if let Some(reply) = world.answer(&datagram) {
                    world.replies.push((to, reply));
                }
                world.seen.push(datagram);
                // The ping is not answered before the challenge.
                if world.seen.last().unwrap()[0] == 0xff {
                    world.replies.clear();
                }
                SessionInput::Sent
            }
            Action::Receive | Action::KeepReceiving => {
                steps.push("wait".to_string());
                match world.replies.pop() {
                    Some((source, datagram)) => SessionInput::Received { source, datagram },
                    None => SessionInput::TimedOut,
                }
            }
            Action::Sleep { ms, interruptible } => {
                assert!(!interruptible);
                steps.push(format!("sleep {ms}"));
                SessionInput::Slept { completed: true }
            }
            Action::Resync { .. } => panic!("a logout has nothing to start over"),
            Action::Finished(result) => break result,
        };
        turn = session.step(input, world.now());
    };
    assert_eq!(result, Ok(()));
    assert_eq!(LOGOUT_PAUSE_MS, 500);
    assert_eq!(
        steps,
        vec!["send ff of 42", "sleep 500", "send 01 of 20", "wait", "send 06 of 80", "wait"]
    );
}

#[test]
fn a_run_removes_exactly_what_it_installed() {
    let route = |last: u8| InstalledRoute {
        plan: RoutePlan {
            server: Ipv4Addr::new(10, 100, 61, last),
            gateway: Ipv4Addr::new(10, 0, 0, 254),
            interface_index: 7,
        },
    };
    for ending in [Ok(()), Err(SessionError::NoResponse("挑战"))] {
        let mut config = session_config();
        config.auth_route = RouteMode::Manage;
        config.servers = vec![
            Ipv4Addr::new(10, 100, 61, 3),
            Ipv4Addr::new(10, 100, 61, 4),
            Ipv4Addr::new(10, 100, 61, 5),
        ];
        let outcome = RouteOutcome {
            installed: vec![route(3), route(5)],
            already_present: 1,
            failed: Vec::new(),
        };
        let mut guard = config.open_run(outcome).ok().unwrap();
        assert_eq!(guard.request(), GuardRequest::Run);
        guard.run_ended(ending.clone());
        assert_eq!(guard.request(), GuardRequest::Remove(route(3)));
        assert_eq!(
            guard.route_removed(Err(RouteError::AccessDenied)),
            "移除认证服务器路由 10.100.61.3 失败：AccessDenied"
        );
        assert_eq!(guard.request(), GuardRequest::Remove(route(5)));
        assert_eq!(guard.route_removed(Ok(())), "已移除认证服务器路由 10.100.61.5");
        assert_eq!(guard.request(), GuardRequest::Done);
        assert_eq!(guard.close(), ending);
    }
}

#[test]
fn a_run_without_its_routes_does_not_open() {
    let mut config = session_config();
    config.auth_route = RouteMode::Manage;
    let outcome = RouteOutcome {
        installed: Vec::new(),
        already_present: 0,
        failed: vec![(Ipv4Addr::localhost(), RouteError::NoGateway)],
    };
    assert_eq!(
        config.open_run(outcome).err(),
        Some(SessionError::Route(RouteError::NoGateway))
    );
}

#[test]
fn only_an_empty_datagram_of_the_server_ends_discarding() {
    assert_eq!(SLEEP_STEP_MS, 50);
    let mut world = World::new(Behaviour::Serving);
    let mut session = LoginSession::new(session_config()).unwrap();
    let server = SocketAddrV4 {
        ip: Ipv4Addr::localhost(),
        port: 61440,
    };
    let stranger = SocketAddrV4 {
        ip: Ipv4Addr::new(10, 0, 0, 1),
        port: 61440,
    };
    assert!(!session.ends_discarding(server, 0));
    world.login(&mut session).unwrap();
    assert!(session.ends_discarding(server, 0));
    assert!(!session.ends_discarding(server, 1));
    assert!(!session.ends_discarding(stranger, 0));
}
