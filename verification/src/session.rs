//! The authentication session: challenge, login, keep-alive, logout.
//!
//! A session is a state machine. Each call hands it what happened, and it answers with what to
//! report and what to do next; sockets, clocks and sleeping are left to the caller. It owns what
//! has to survive between stages:
//!
//! * the login budget, which the challenge and the login send share, so that a challenge that
//!   timed out does not refill it;
//! * the challenge value, which the digest of every primary keep-alive is made of;
//! * the session cookie of the login answer, which every primary keep-alive repeats;
//! * the server that answered the challenge, the only source accepted afterwards.

use vstd::prelude::*;

use crate::adapter;
use crate::auth::{self, ChallengeExchange, ChallengeExchangeError, ExchangeStep};
use crate::keepalive::{self, KeepAliveChecksum, KeepAlivePacketType, KeepAliveResponse};
use crate::login_response::{self, FailureView, LoginFailure, LoginResponse, ResponseView};
use crate::net::{self, Ipv4Addr, SocketAddrV4};
use crate::protocol::{self, LogoutPacketError};
use crate::reference_login::{self, BuildError, ReferenceLoginConfig};
use crate::retry::{LoginRetry, LoginTimeout, RetryConfigError, RetryState};
use crate::route::{
    self, InstalledRoute, OutcomeView, RouteAction, RouteError, RouteInstaller, RouteMode,
    RouteOutcome, RouteReport,
};
use crate::text;
use crate::transport::{self, TransportErrorKind};

verus! {

/// The sequence of a session's first challenge.
pub const FIRST_CHALLENGE_SEQUENCE: u8 = 0x02;

/// The client option byte of every challenge.
pub const CHALLENGE_CLIENT_OPTION: u8 = 0x09;

/// How long a session waits after a login timeout before it asks for another challenge.
pub const RETRY_DELAY_MS: u64 = 3000;

/// The longest part of a wait, in milliseconds, before it is looked up whether the session is to
/// stop; and how long is waited for what is left in the socket.
pub const SLEEP_STEP_MS: u64 = 50;

/// How long a session waits before it resynchronises after a keep-alive gap.
pub const RESYNC_DELAY_MS: u64 = 1000;

/// The keep-alive counter values that bring the extra packet are the multiples of this. An extra
/// round takes three counts and an ordinary round two, which makes it every tenth round.
pub const EXTRA_EVERY: u8 = 21;

#[derive(Debug, Clone, Copy, PartialEq, Eq, Structural)]
pub enum SessionPhase {
    Challenge,
    Authenticating,
    Online,
    KeepAlive,
    LoggedOut,
}

/// What a session reports. Notes never hold the password.
#[derive(Debug, Clone, PartialEq, Eq)]
pub enum SessionEvent {
    Phase(SessionPhase),
    Note(String),
    KeepAliveCycle { sequence: u8, tail: [u8; 4] },
}

/// What a report says.
pub enum EventView {
    Phase(SessionPhase),
    Note(Seq<char>),
    KeepAliveCycle { sequence: u8, tail: Seq<u8> },
}

impl View for SessionEvent {
    type V = EventView;

    open spec fn view(&self) -> EventView {
        match *self {
            SessionEvent::Phase(phase) => EventView::Phase(phase),
            SessionEvent::Note(note) => EventView::Note(note@),
            SessionEvent::KeepAliveCycle { sequence, tail } => EventView::KeepAliveCycle {
                sequence,
                tail: tail@,
            },
        }
    }
}

/// What reports say.
pub open spec fn event_views(events: Seq<SessionEvent>) -> Seq<EventView> {
    events.map_values(|event: SessionEvent| event@)
}

#[derive(Debug, Clone, PartialEq, Eq)]
pub enum SessionError {
    Configuration(RetryConfigError),
    Transport(TransportErrorKind),
    Challenge(&'static str),
    Credentials(BuildError),
    Rejected(LoginFailure),
    NoResponse(&'static str),
    Stopped,
    LogoutPacket(LogoutPacketError),
    Route(RouteError),
}

/// What a session error states.
pub enum ErrorView {
    Configuration(RetryConfigError),
    Transport(TransportErrorKind),
    Challenge(Seq<char>),
    Credentials(BuildError),
    Rejected(FailureView),
    NoResponse(Seq<char>),
    Stopped,
    LogoutPacket(LogoutPacketError),
    Route(RouteError),
}

impl View for SessionError {
    type V = ErrorView;

    open spec fn view(&self) -> ErrorView {
        match *self {
            SessionError::Configuration(error) => ErrorView::Configuration(error),
            SessionError::Transport(kind) => ErrorView::Transport(kind),
            SessionError::Challenge(reason) => ErrorView::Challenge(reason@),
            SessionError::Credentials(error) => ErrorView::Credentials(error),
            SessionError::Rejected(failure) => ErrorView::Rejected(failure@),
            SessionError::NoResponse(stage) => ErrorView::NoResponse(stage@),
            SessionError::Stopped => ErrorView::Stopped,
            SessionError::LogoutPacket(error) => ErrorView::LogoutPacket(error),
            SessionError::Route(error) => ErrorView::Route(error),
        }
    }
}

/// What a result states.
pub open spec fn result_view(result: Result<(), SessionError>) -> Result<(), ErrorView> {
    match result {
        Ok(()) => Ok(()),
        Err(error) => Err(error@),
    }
}

/// The name of a refused server list.
pub open spec fn list_error_name(error: RetryConfigError) -> Seq<char> {
    match error {
        RetryConfigError::NoServers => "NoServers"@,
        RetryConfigError::InvalidServer(server) => "InvalidServer("@ + net::ipv4_text(server)
            + ")"@,
    }
}

/// The name of a login frame that cannot be built.
pub open spec fn build_error_name(error: BuildError) -> Seq<char> {
    match error {
        BuildError::PasswordTooLong => "PasswordTooLong"@,
        BuildError::UsernameTooLong => "UsernameTooLong"@,
    }
}

/// What a route error tells the user.
pub open spec fn route_error_text(error: RouteError) -> Seq<char> {
    match error {
        RouteError::NoInterface => "找不到通往认证服务器的接口"@,
        RouteError::NoGateway => "选中接口没有默认网关，无法添加认证服务器路由"@,
        RouteError::AccessDenied => "添加认证服务器路由被拒绝，请以管理员身份运行"@,
        RouteError::Refused(code) => "添加认证服务器路由失败，错误码 "@ + text::decimal(
            code as nat,
        ),
        RouteError::Unsupported => "当前平台不支持认证服务器路由管理"@,
    }
}

/// What an error tells the user. The server's own explanation of a rejection, where it could be
/// read, comes before the bare code.
pub open spec fn error_text(error: ErrorView, explanation: Option<Seq<char>>) -> Seq<char> {
    match error {
        ErrorView::Configuration(reason) => "认证服务器列表无效："@ + list_error_name(reason),
        ErrorView::Transport(kind) => if kind is AddrInUse {
            "本地端口被占用，请关闭其它 Dr.COM 客户端，或用 --local-port 0 让系统分配端口"@
        } else {
            "套接字错误："@ + transport::kind_name(kind)
        },
        ErrorView::Challenge(reason) => "挑战失败："@ + reason,
        ErrorView::Credentials(reason) => "账号或密码长度不合法："@ + build_error_name(reason),
        ErrorView::Rejected(failure) => match explanation {
            Some(words) => words + "（错误码 "@ + text::decimal(failure.code as nat) + "）"@,
            None => "认证被服务器拒绝，错误码 "@ + text::decimal(failure.code as nat),
        },
        ErrorView::NoResponse(stage) => "认证服务器未响应："@ + stage,
        ErrorView::Stopped => "会话已停止"@,
        ErrorView::LogoutPacket(reason) => "下线报文无法构造："@ + "PasswordTooLong"@,
        ErrorView::Route(reason) => route_error_text(reason),
    }
}

/// The explanation that a rejection carries, given what the system's conversion from code page 936
/// makes of its bytes.
pub open spec fn explained(error: ErrorView, converted: Seq<u16>) -> Option<Seq<char>> {
    match error {
        ErrorView::Rejected(failure) => match login_response::shown_message(failure) {
            Some(shown) => Some(login_response::decoded(shown, converted)),
            None => None,
        },
        _ => None,
    }
}

/// One sentence on what to do about an error, where there is something to do.
pub open spec fn guidance_of(error: ErrorView) -> Option<Seq<char>> {
    match error {
        ErrorView::NoResponse(_) => Some("请确认网线已插好或已连上校园 Wi-Fi，然后重试"@),
        ErrorView::Rejected(failure) => if failure.code == 1 || failure.code == 7 || failure.code
            == 11 {
            Some("该账号可能已在其它设备上在线，或本机 IP/MAC 与登记不符"@)
        } else {
            None
        },
        ErrorView::Transport(kind) => if kind is AddrInUse {
            Some("本地端口 61440 同一时刻只能被一个客户端占用"@)
        } else if kind is NetworkDown || kind is NetworkUnreachable || kind is AddrNotAvailable {
            Some("网卡地址可能已变化，请点“刷新”后重试"@)
        } else if kind is PermissionDenied {
            Some("请以管理员身份运行"@)
        } else {
            None
        },
        ErrorView::Route(reason) => if reason is AccessDenied {
            Some("添加认证服务器路由需要管理员权限"@)
        } else {
            None
        },
        ErrorView::Challenge(_) => Some(
            "该地址可能不是本部署的认证服务器，请检查配置里的 auth_server"@,
        ),
        ErrorView::Configuration(_) => Some("请检查 drcom.ini 与界面上的账号密码"@),
        ErrorView::Credentials(_) => Some("请检查 drcom.ini 与界面上的账号密码"@),
        ErrorView::LogoutPacket(_) => Some(
            "下线报文构造失败，服务端会话可能仍保留，通常会在超时后自行释放"@,
        ),
        ErrorView::Stopped => None,
    }
}

impl SessionError {
    /// What the error tells the user. `converted` are the code units that the system's conversion
    /// from code page 936 makes of the `message_bytes` of a rejection.
    pub fn to_text(&self, converted: &[u16]) -> (shown: String)
        ensures
            shown@ == error_text(self@, explained(self@, converted@)),
    {
        let explanation: Option<String> = match self {
            SessionError::Rejected(failure) => failure.message_text(converted),
            _ => None,
        };
        match &explanation {
            Some(words) => self.text_with(Some(words.as_str())),
            None => self.text_with(None),
        }
    }

    fn text_with(&self, explanation: Option<&str>) -> (shown: String)
        ensures
            shown@ == error_text(
                self@,
                match explanation {
                    Some(words) => Some(words@),
                    None => None,
                },
            ),
    {
        match self {
            SessionError::Configuration(reason) => {
                let mut shown = "认证服务器列表无效：".to_string();
                match reason {
                    RetryConfigError::NoServers => {
                        shown.append("NoServers");
                    },
                    RetryConfigError::InvalidServer(server) => {
                        let mut name = "InvalidServer(".to_string();
                        name.append(&net::ipv4_string(*server));
                        name.append(")");
                        shown.append(&name);
                    },
                }
                shown
            },
            SessionError::Transport(kind) => {
                if matches!(kind, TransportErrorKind::AddrInUse) {
                    "本地端口被占用，请关闭其它 Dr.COM 客户端，或用 --local-port 0 让系统分配端口".to_string()
                } else {
                    let mut shown = "套接字错误：".to_string();
                    shown.append(&kind.name());
                    shown
                }
            },
            SessionError::Challenge(reason) => {
                let mut shown = "挑战失败：".to_string();
                shown.append(reason);
                shown
            },
            SessionError::Credentials(reason) => {
                let mut shown = "账号或密码长度不合法：".to_string();
                match reason {
                    BuildError::PasswordTooLong => {
                        shown.append("PasswordTooLong");
                    },
                    BuildError::UsernameTooLong => {
                        shown.append("UsernameTooLong");
                    },
                }
                shown
            },
            SessionError::Rejected(failure) => match explanation {
                Some(words) => {
                    let mut shown = words.to_string();
                    shown.append("（错误码 ");
                    shown.append(&text::decimal_text(failure.code as u64));
                    shown.append("）");
                    shown
                },
                None => {
                    let mut shown = "认证被服务器拒绝，错误码 ".to_string();
                    shown.append(&text::decimal_text(failure.code as u64));
                    shown
                },
            },
            SessionError::NoResponse(stage) => {
                let mut shown = "认证服务器未响应：".to_string();
                shown.append(stage);
                shown
            },
            SessionError::Stopped => "会话已停止".to_string(),
            SessionError::LogoutPacket(_) => {
                let mut shown = "下线报文无法构造：".to_string();
                shown.append("PasswordTooLong");
                shown
            },
            SessionError::Route(reason) => match reason {
                RouteError::NoInterface => "找不到通往认证服务器的接口".to_string(),
                RouteError::NoGateway => "选中接口没有默认网关，无法添加认证服务器路由".to_string(),
                RouteError::AccessDenied => "添加认证服务器路由被拒绝，请以管理员身份运行".to_string(),
                RouteError::Refused(code) => {
                    let mut shown = "添加认证服务器路由失败，错误码 ".to_string();
                    shown.append(&text::decimal_text(*code as u64));
                    shown
                },
                RouteError::Unsupported => "当前平台不支持认证服务器路由管理".to_string(),
            },
        }
    }

    /// One sentence on what to do about the error. Errors without a known remedy get none: a
    /// confident wrong suggestion is worse than silence.
    pub fn guidance(&self) -> (hint: Option<&'static str>)
        ensures
            match hint {
                Some(words) => guidance_of(self@) == Some(words@),
                None => guidance_of(self@) is None,
            },
    {
        match self {
            SessionError::NoResponse(_) => Some("请确认网线已插好或已连上校园 Wi-Fi，然后重试"),
            SessionError::Rejected(failure) => {
                if failure.code == 1 || failure.code == 7 || failure.code == 11 {
                    Some("该账号可能已在其它设备上在线，或本机 IP/MAC 与登记不符")
                } else {
                    None
                }
            },
            SessionError::Transport(kind) => match kind {
                TransportErrorKind::AddrInUse => Some(
                    "本地端口 61440 同一时刻只能被一个客户端占用",
                ),
                TransportErrorKind::NetworkDown
                | TransportErrorKind::NetworkUnreachable
                | TransportErrorKind::AddrNotAvailable => Some(
                    "网卡地址可能已变化，请点“刷新”后重试",
                ),
                TransportErrorKind::PermissionDenied => Some("请以管理员身份运行"),
                _ => None,
            },
            SessionError::Route(reason) => match reason {
                RouteError::AccessDenied => Some("添加认证服务器路由需要管理员权限"),
                _ => None,
            },
            SessionError::Challenge(_) => Some(
                "该地址可能不是本部署的认证服务器，请检查配置里的 auth_server",
            ),
            SessionError::Configuration(_) => Some("请检查 drcom.ini 与界面上的账号密码"),
            SessionError::Credentials(_) => Some("请检查 drcom.ini 与界面上的账号密码"),
            SessionError::LogoutPacket(_) => Some(
                "下线报文构造失败，服务端会话可能仍保留，通常会在超时后自行释放",
            ),
            SessionError::Stopped => None,
        }
    }
}

/// The settings of a session.
#[derive(Debug, Clone, PartialEq, Eq)]
pub struct SessionConfig {
    /// Authentication servers in order of preference.
    pub servers: Vec<Ipv4Addr>,
    pub server_port: u16,
    /// Address of the adapter that carries the traffic: what the login frame and the type 3
    /// keep-alive report, and what the socket binds to unless `bind_ipv4` says otherwise.
    pub local_ipv4: Ipv4Addr,
    /// Address to bind to where it differs from the reported one.
    pub bind_ipv4: Option<Ipv4Addr>,
    pub local_port: u16,
    pub username: Vec<u8>,
    pub password: Vec<u8>,
    pub hostname: Vec<u8>,
    pub mac: u64,
    pub primary_dns: [u8; 4],
    pub dhcp_server: [u8; 4],
    pub auth_version: [u8; 2],
    /// Version pair of the 40-byte keep-alive until a reply carries one.
    pub keepalive_version: [u8; 2],
    /// Whether the type 3 form folds a checksum.
    pub keepalive_checksum: KeepAliveChecksum,
    pub control_status: u8,
    pub adapter_num: u8,
    pub ip_dog: u8,
    pub request_timeout_ms: u64,
    pub keepalive_interval_ms: u64,
    /// Sends before a keep-alive gap counts as a failure.
    pub keepalive_retries: u8,
    /// Whether `127.0.0.1` is a server.
    pub allow_loopback_server: bool,
    /// What may be done about the host route to the server.
    pub auth_route: RouteMode,
}

impl SessionConfig {
    pub fn new(servers: Vec<Ipv4Addr>, username: Vec<u8>, password: Vec<u8>) -> (config: Self)
        ensures
            config.servers == servers,
            config.username == username,
            config.password == password,
            config.server_port == transport::DEFAULT_LOCAL_PORT,
            config.local_port == transport::DEFAULT_LOCAL_PORT,
            config.local_ipv4 == net::unspecified(),
            config.bind_ipv4 is None,
            config.hostname@ == Seq::<u8>::empty(),
            config.mac == adapter::DEFAULT_MAC,
            config.primary_dns@ == seq![10u8, 10, 10, 10],
            config.dhcp_server@ == seq![0u8, 0, 0, 0],
            config.auth_version@ == seq![0x68u8, 0x00],
            config.keepalive_version@ == seq![0xdcu8, 0x02],
            config.keepalive_checksum is Zero,
            config.control_status == 0x20,
            config.adapter_num == 0x03,
            config.ip_dog == 0x01,
            config.request_timeout_ms == 3000,
            config.keepalive_interval_ms == 20_000,
            config.keepalive_retries == 3,
            !config.allow_loopback_server,
            config.auth_route is Off,
    {
        SessionConfig {
            servers,
            server_port: transport::DEFAULT_LOCAL_PORT,
            local_ipv4: Ipv4Addr::unspecified(),
            bind_ipv4: None,
            local_port: transport::DEFAULT_LOCAL_PORT,
            username,
            password,
            hostname: Vec::new(),
            mac: adapter::DEFAULT_MAC,
            primary_dns: [10, 10, 10, 10],
            dhcp_server: [0, 0, 0, 0],
            auth_version: [0x68, 0x00],
            keepalive_version: [0xdc, 0x02],
            keepalive_checksum: KeepAliveChecksum::Zero,
            control_status: 0x20,
            adapter_num: 0x03,
            ip_dog: 0x01,
            request_timeout_ms: 3000,
            keepalive_interval_ms: 20_000,
            keepalive_retries: 3,
            allow_loopback_server: false,
            auth_route: RouteMode::Off,
        }
    }

    /// The address that the socket binds to.
    pub fn bind_address(&self) -> (address: Ipv4Addr)
        ensures
            address == (match self.bind_ipv4 {
                Some(chosen) => chosen,
                None => self.local_ipv4,
            }),
    {
        match self.bind_ipv4 {
            Some(chosen) => chosen,
            None => self.local_ipv4,
        }
    }
}

/// What a session is told besides what happened.
#[derive(Debug, Clone, Copy, PartialEq, Eq, Structural)]
pub struct Moment {
    /// Seconds since the Unix epoch.
    pub unix_seconds: u64,
    /// Milliseconds of a clock that never runs backwards.
    pub uptime_ms: u64,
    /// Whether the session has been asked to stop.
    pub stopped: bool,
}

/// What happened to what a session asked for.
#[derive(Debug, Clone, PartialEq, Eq)]
pub enum SessionInput {
    Sent,
    SendFailed(TransportErrorKind),
    Received { source: SocketAddrV4, datagram: Vec<u8> },
    /// Nothing more arrived before the deadline.
    TimedOut,
    ReceiveFailed(TransportErrorKind),
    /// The pause is over; `completed` is false when the session was stopped meanwhile.
    Slept { completed: bool },
}

/// What a session asks for.
#[derive(Debug, PartialEq, Eq)]
pub enum Action {
    /// Send this datagram, and answer with `Sent` or `SendFailed`.
    Send { to: SocketAddrV4, datagram: Vec<u8> },
    /// Wait for one datagram, for the request timeout at most.
    Receive,
    /// Go on waiting: the deadline stays where it was.
    KeepReceiving,
    /// Pause. A pause that cannot be interrupted lasts its full time.
    Sleep { ms: u64, interruptible: bool },
    /// Drop the datagrams that have arrived, then pause as long as nothing interrupts.
    Resync { ms: u64 },
    Finished(Result<(), SessionError>),
}

/// What an action states.
pub enum ActionView {
    Send { to: SocketAddrV4, datagram: Seq<u8> },
    Receive,
    KeepReceiving,
    Sleep { ms: u64, interruptible: bool },
    Resync { ms: u64 },
    Finished(Result<(), ErrorView>),
}

impl View for Action {
    type V = ActionView;

    open spec fn view(&self) -> ActionView {
        match *self {
            Action::Send { to, datagram } => ActionView::Send { to, datagram: datagram@ },
            Action::Receive => ActionView::Receive,
            Action::KeepReceiving => ActionView::KeepReceiving,
            Action::Sleep { ms, interruptible } => ActionView::Sleep { ms, interruptible },
            Action::Resync { ms } => ActionView::Resync { ms },
            Action::Finished(result) => ActionView::Finished(result_view(result)),
        }
    }
}

/// What a session answers: what to report, in order, and what to do.
#[derive(Debug, PartialEq, Eq)]
pub struct Turn {
    pub events: Vec<SessionEvent>,
    pub action: Action,
}

/// The three forms of the 40-byte keep-alive.
#[derive(Debug, Clone, Copy, PartialEq, Eq, Structural)]
pub enum PacketForm {
    Extra,
    Type1,
    Type3,
}

/// Where a run of keep-alive rounds stands.
#[derive(Debug, Clone, Copy, PartialEq, Eq)]
pub struct Round {
    /// The number of the next 40-byte packet.
    pub counter: u8,
    /// The tail that the last replies carried.
    pub tail: [u8; 4],
    /// How often the run has been started over.
    pub restarts: u8,
}

/// The mathematical content of a `Round`.
pub struct RoundView {
    pub counter: u8,
    pub tail: Seq<u8>,
    pub restarts: u8,
}

impl View for Round {
    type V = RoundView;

    open spec fn view(&self) -> RoundView {
        RoundView { counter: self.counter, tail: self.tail@, restarts: self.restarts }
    }
}

/// Where a session stands.
#[derive(Debug, Clone, Copy, PartialEq, Eq)]
pub enum Stage {
    Idle,
    LoginChallenge { nonce: u16 },
    Login,
    LoginPause,
    Primary { round: Round, seconds: u64, left: u8 },
    Packet { round: Round, form: PacketForm, sequence: u8, first: bool, left: u8 },
    CyclePause { round: Round },
    Resync { restarts: u8 },
    LogoutPing { nonce: u16 },
    LogoutPause { nonce: u16 },
    LogoutChallenge { nonce: u16 },
    Logout,
}

/// The mathematical content of a `Stage`.
pub enum StageView {
    Idle,
    LoginChallenge { nonce: u16 },
    Login,
    LoginPause,
    Primary { round: RoundView, seconds: u64, left: u8 },
    Packet { round: RoundView, form: PacketForm, sequence: u8, first: bool, left: u8 },
    CyclePause { round: RoundView },
    Resync { restarts: u8 },
    LogoutPing { nonce: u16 },
    LogoutPause { nonce: u16 },
    LogoutChallenge { nonce: u16 },
    Logout,
}

impl View for Stage {
    type V = StageView;

    open spec fn view(&self) -> StageView {
        match *self {
            Stage::Idle => StageView::Idle,
            Stage::LoginChallenge { nonce } => StageView::LoginChallenge { nonce },
            Stage::Login => StageView::Login,
            Stage::LoginPause => StageView::LoginPause,
            Stage::Primary { round, seconds, left } => StageView::Primary {
                round: round@,
                seconds,
                left,
            },
            Stage::Packet { round, form, sequence, first, left } => StageView::Packet {
                round: round@,
                form,
                sequence,
                first,
                left,
            },
            Stage::CyclePause { round } => StageView::CyclePause { round: round@ },
            Stage::Resync { restarts } => StageView::Resync { restarts },
            Stage::LogoutPing { nonce } => StageView::LogoutPing { nonce },
            Stage::LogoutPause { nonce } => StageView::LogoutPause { nonce },
            Stage::LogoutChallenge { nonce } => StageView::LogoutChallenge { nonce },
            Stage::Logout => StageView::Logout,
        }
    }
}

/// What kind of input a session waits for.
#[derive(Debug, Clone, Copy, PartialEq, Eq, Structural)]
pub enum Awaiting {
    Nothing,
    Send,
    Reply,
    Wake,
}

/// An authentication session. Making one touches nothing.
#[derive(Debug)]
pub struct LoginSession {
    config: SessionConfig,
    retry: LoginRetry,
    sequence: u8,
    salt: [u8; 4],
    cookie: [u8; 16],
    keepalive_version: [u8; 2],
    server: Option<SocketAddrV4>,
    connected_since: Option<u64>,
    stage: Stage,
    awaiting: Awaiting,
    running: bool,
}

/// The mathematical content of a `LoginSession`.
pub struct SessionModel {
    pub config: SessionConfig,
    /// The login budget.
    pub retry: RetryState,
    /// The sequence of the last challenge.
    pub sequence: u8,
    /// The challenge that was accepted last.
    pub salt: Seq<u8>,
    pub cookie: Seq<u8>,
    /// The version pair of the 40-byte keep-alive.
    pub version: Seq<u8>,
    /// The server that answered the challenge.
    pub server: Option<SocketAddrV4>,
    pub connected_since: Option<u64>,
    pub stage: StageView,
    pub awaiting: Awaiting,
    /// Whether login, keep-alive and logout follow each other.
    pub running: bool,
}

/// A session's answer together with the session afterwards.
pub struct TurnView {
    pub model: SessionModel,
    pub events: Seq<EventView>,
    pub action: ActionView,
}

impl View for LoginSession {
    type V = SessionModel;

    closed spec fn view(&self) -> SessionModel {
        SessionModel {
            config: self.config,
            retry: self.retry@,
            sequence: self.sequence,
            salt: self.salt@,
            cookie: self.cookie@,
            version: self.keepalive_version@,
            server: self.server,
            connected_since: self.connected_since,
            stage: self.stage@,
            awaiting: self.awaiting,
            running: self.running,
        }
    }
}

/// A session before its first step.
pub open spec fn fresh_session(config: SessionConfig) -> SessionModel {
    SessionModel {
        config,
        retry: RetryState::fresh(config.servers@),
        sequence: 0x01,
        salt: crate::bytes::zeros(4),
        cookie: crate::bytes::zeros(16),
        version: config.keepalive_version@,
        server: None,
        connected_since: None,
        stage: StageView::Idle,
        awaiting: Awaiting::Nothing,
        running: false,
    }
}

/// What the login frame states about the machine.
pub open spec fn profile_of(config: SessionConfig) -> reference_login::LoginProfile {
    reference_login::LoginProfile {
        host_ipv4: config.local_ipv4.bytes(),
        mac: config.mac,
        hostname: config.hostname@,
        primary_dns: config.primary_dns@,
        dhcp_server: config.dhcp_server@,
        auth_version: config.auth_version@,
        control_status: config.control_status,
        adapter_num: config.adapter_num,
        ip_dog: config.ip_dog,
    }
}

pub open spec fn note(events: Seq<EventView>, words: Seq<char>) -> Seq<EventView> {
    events.push(EventView::Note(words))
}

pub open spec fn phase(events: Seq<EventView>, reached: SessionPhase) -> Seq<EventView> {
    events.push(EventView::Phase(reached))
}

/// The session comes to rest.
pub open spec fn finished(
    m: SessionModel,
    events: Seq<EventView>,
    result: Result<(), ErrorView>,
) -> TurnView {
    TurnView {
        model: SessionModel { stage: StageView::Idle, awaiting: Awaiting::Nothing, ..m },
        events,
        action: ActionView::Finished(result),
    }
}

/// The session sends a datagram and is at `stage` from then on.
pub open spec fn sending(
    m: SessionModel,
    events: Seq<EventView>,
    stage: StageView,
    to: SocketAddrV4,
    datagram: Seq<u8>,
) -> TurnView {
    TurnView {
        model: SessionModel { stage, awaiting: Awaiting::Send, ..m },
        events,
        action: ActionView::Send { to, datagram },
    }
}

/// The session pauses at `stage`.
pub open spec fn pausing(
    m: SessionModel,
    events: Seq<EventView>,
    stage: StageView,
    action: ActionView,
) -> TurnView {
    TurnView {
        model: SessionModel { stage, awaiting: Awaiting::Wake, ..m },
        events,
        action,
    }
}

/// No server has answered a challenge yet.
pub open spec fn no_server() -> ErrorView {
    ErrorView::Challenge("尚未选定认证服务器"@)
}

/// The primary keep-alive of a session.
pub open spec fn primary_datagram(m: SessionModel, seconds: u64) -> Seq<u8> {
    keepalive::primary_bytes(
        reference_login::first_digest_of(m.salt, m.config.password@),
        m.cookie,
        seconds,
    )
}

/// The clock nonce of a challenge.
pub open spec fn nonce_at(now: Moment) -> u16 {
    (now.unix_seconds % 0xffff) as u16
}

/// How a logout ends. In a run it is best effort: a failure is reported and the run ends well.
/// A logout never ends in a rejection, so no text of it has to be converted.
#[verifier::opaque]
pub open spec fn logout_ended(
    m: SessionModel,
    events: Seq<EventView>,
    result: Result<(), ErrorView>,
) -> TurnView {
    if !m.running {
        finished(m, events, result)
    } else {
        match result {
            Err(error) => if error is Stopped {
                finished(m, events, Ok(()))
            } else {
                finished(
                    m,
                    note(events, "下线失败："@ + error_text(error, explained(error, Seq::empty()))),
                    Ok(()),
                )
            },
            Ok(()) => finished(m, events, Ok(())),
        }
    }
}

/// How a logout begins: the next sequence, and a ping to the server.
#[verifier::opaque]
pub open spec fn logout_begun(m: SessionModel, events: Seq<EventView>, now: Moment) -> TurnView {
    match m.server {
        None => logout_ended(m, events, Err(no_server())),
        Some(server) => sending(
            SessionModel { sequence: m.sequence.wrapping_add(1), ..m },
            events,
            StageView::LogoutPing { nonce: nonce_at(now) },
            server,
            primary_datagram(m, now.unix_seconds),
        ),
    }
}

/// After the pause that follows the ping: a challenge to the same server.
#[verifier::opaque]
pub open spec fn logout_challenged(
    m: SessionModel,
    events: Seq<EventView>,
    nonce: u16,
) -> TurnView {
    match m.server {
        None => logout_ended(m, events, Err(no_server())),
        Some(server) => sending(
            m,
            events,
            StageView::LogoutChallenge { nonce },
            server,
            protocol::challenge_request_frame(m.sequence, nonce, CHALLENGE_CLIENT_OPTION),
        ),
    }
}

/// After the server's challenge: the logout frame.
#[verifier::opaque]
pub open spec fn logout_answered(
    m: SessionModel,
    events: Seq<EventView>,
    challenge: Seq<u8>,
) -> TurnView {
    if crate::bytes::until_nul(m.config.password@).len() > protocol::PASSWORD_FIELD_LEN {
        logout_ended(m, events, Err(ErrorView::LogoutPacket(LogoutPacketError::PasswordTooLong)))
    } else {
        match m.server {
            None => logout_ended(m, events, Err(no_server())),
            Some(server) => sending(
                m,
                events,
                StageView::Logout,
                server,
                protocol::logout_frame(
                    challenge,
                    m.config.username@,
                    m.config.password@,
                    m.config.control_status,
                    m.sequence,
                    reference_login::be_bytes(m.config.mac, 6),
                    m.cookie,
                ),
            ),
        }
    }
}

/// After the logout frame: whatever the server says, or does not say, the session is over.
#[verifier::opaque]
pub open spec fn logout_closed(
    m: SessionModel,
    events: Seq<EventView>,
    reply: Option<Seq<u8>>,
) -> TurnView {
    let said = match reply {
        Some(datagram) => "下线响应 0x"@ + text::hex_byte(
            if datagram.len() > 0 {
                datagram[0]
            } else {
                0
            },
        ) + "，"@ + text::decimal(datagram.len()) + " 字节"@,
        None => "下线响应超时，连接已交由服务器回收"@,
    };
    logout_ended(m, phase(note(events, said), SessionPhase::LoggedOut), Ok(()))
}

/// How the keep-alive ends. In a run, an end that was asked for leads on to the logout.
#[verifier::opaque]
pub open spec fn keepalive_ended(
    m: SessionModel,
    events: Seq<EventView>,
    result: Result<(), ErrorView>,
    now: Moment,
) -> TurnView {
    if !m.running {
        finished(m, events, result)
    } else {
        match result {
            Err(error) => if error is Stopped {
                logout_begun(m, events, now)
            } else {
                finished(m, events, Err(error))
            },
            Ok(()) => logout_begun(m, events, now),
        }
    }
}

/// The server went quiet at `stage`: the run starts over after a pause, unless it has been
/// started over often enough.
#[verifier::opaque]
pub open spec fn gone_quiet(
    m: SessionModel,
    events: Seq<EventView>,
    restarts: u8,
    stage: Seq<char>,
    now: Moment,
) -> TurnView {
    let again: u8 = if restarts < 255 {
        (restarts + 1) as u8
    } else {
        255
    };
    if again >= m.config.keepalive_retries {
        keepalive_ended(m, events, Err(ErrorView::NoResponse(stage)), now)
    } else {
        pausing(
            m,
            note(
                events,
                stage + "失败，重新进入主保活 ("@ + text::decimal(again as nat) + "/"@
                    + text::decimal(m.config.keepalive_retries as nat) + ")"@,
            ),
            StageView::Resync { restarts: again },
            ActionView::Resync { ms: RESYNC_DELAY_MS },
        )
    }
}

/// A keep-alive datagram to the server.
#[verifier::opaque]
pub open spec fn keepalive_sent(
    m: SessionModel,
    events: Seq<EventView>,
    stage: StageView,
    datagram: Seq<u8>,
    now: Moment,
) -> TurnView {
    match m.server {
        None => keepalive_ended(m, events, Err(no_server()), now),
        Some(server) => sending(m, events, stage, server, datagram),
    }
}

/// The next send of the primary keep-alive, of which `left` are left; none left means that the
/// server went quiet.
#[verifier::opaque]
pub open spec fn primary_tried(
    m: SessionModel,
    events: Seq<EventView>,
    round: RoundView,
    seconds: u64,
    left: u8,
    now: Moment,
) -> TurnView {
    if left == 0 {
        gone_quiet(m, note(events, "主保活连续无响应"@), round.restarts, "主保活"@, now)
    } else {
        keepalive_sent(
            m,
            events,
            StageView::Primary { round, seconds, left: (left - 1) as u8 },
            primary_datagram(m, seconds),
            now,
        )
    }
}

/// A round begins with the primary keep-alive.
#[verifier::opaque]
pub open spec fn round_begun(
    m: SessionModel,
    events: Seq<EventView>,
    round: RoundView,
    now: Moment,
) -> TurnView {
    match m.server {
        None => keepalive_ended(m, events, Err(no_server()), now),
        Some(_) => primary_tried(
            m,
            events,
            round,
            now.unix_seconds,
            m.config.keepalive_retries,
            now,
        ),
    }
}

/// A run of rounds begins, unless the session has been stopped.
#[verifier::opaque]
pub open spec fn rounds_begun(
    m: SessionModel,
    events: Seq<EventView>,
    restarts: u8,
    now: Moment,
) -> TurnView {
    if now.stopped {
        keepalive_ended(m, events, Ok(()), now)
    } else {
        round_begun(
            m,
            events,
            RoundView { counter: 0, tail: crate::bytes::zeros(4), restarts },
            now,
        )
    }
}

/// How the keep-alive begins.
pub open spec fn keepalive_begun(
    m: SessionModel,
    events: Seq<EventView>,
    now: Moment,
) -> TurnView {
    rounds_begun(m, phase(events, SessionPhase::KeepAlive), 0, now)
}

/// The session after a reply that may carry a version pair.
pub open spec fn adopted(m: SessionModel, reply: Seq<u8>) -> SessionModel {
    match keepalive::version_of(reply) {
        Some(version) => SessionModel { version, ..m },
        None => m,
    }
}

/// The reports after a reply that may carry a version pair: a change is reported.
pub open spec fn adoption_noted(
    m: SessionModel,
    events: Seq<EventView>,
    reply: Seq<u8>,
) -> Seq<EventView> {
    match keepalive::version_of(reply) {
        Some(version) => if version == m.version {
            events
        } else {
            note(
                events,
                "保活版本 "@ + text::hex(m.version) + " 改为 "@ + text::hex(version)
                    + "（取自服务器响应）"@,
            )
        },
        None => events,
    }
}

/// The packet type of a form.
pub open spec fn form_type(form: PacketForm) -> KeepAlivePacketType {
    match form {
        PacketForm::Type3 => KeepAlivePacketType::Type3,
        _ => KeepAlivePacketType::Type1,
    }
}

/// The name of the stage that a packet type belongs to.
pub open spec fn stage_name(packet_type: KeepAlivePacketType) -> Seq<char> {
    match packet_type {
        KeepAlivePacketType::Type1 => "保活 type1"@,
        KeepAlivePacketType::Type3 => "保活 type3"@,
    }
}

/// The next send of a 40-byte packet, of which `left` are left. With none left, what the last
/// send came to decides.
#[verifier::opaque]
pub open spec fn packet_sent(
    m: SessionModel,
    events: Seq<EventView>,
    round: RoundView,
    form: PacketForm,
    sequence: u8,
    first: bool,
    left: u8,
    now: Moment,
) -> TurnView {
    keepalive_sent(
        m,
        events,
        StageView::Packet { round, form, sequence, first, left },
        keepalive::packet_bytes(
            sequence,
            round.tail,
            form_type(form),
            first,
            keepalive::REFERENCE_NONCE@,
            m.version,
            m.config.local_ipv4.bytes(),
            m.config.keepalive_checksum,
        ),
        now,
    )
}

/// A 40-byte packet begins: its number is the counter, and only the extra form carries the
/// opening marker.
#[verifier::opaque]
pub open spec fn packet_begun(
    m: SessionModel,
    events: Seq<EventView>,
    round: RoundView,
    form: PacketForm,
    now: Moment,
) -> TurnView {
    if m.config.keepalive_retries == 0 {
        gone_quiet(m, events, round.restarts, stage_name(form_type(form)), now)
    } else {
        packet_sent(
            m,
            events,
            round,
            form,
            round.counter,
            form is Extra,
            (m.config.keepalive_retries - 1) as u8,
            now,
        )
    }
}

/// After the primary keep-alive: the extra packet where the counter asks for it, else the pair.
#[verifier::opaque]
pub open spec fn primary_answered(
    m: SessionModel,
    events: Seq<EventView>,
    round: RoundView,
    now: Moment,
) -> TurnView {
    let form = if round.counter % EXTRA_EVERY == 0 {
        PacketForm::Extra
    } else {
        PacketForm::Type1
    };
    packet_begun(m, events, round, form, now)
}

/// After a 40-byte packet: the counter moves on, the pair takes the reply's tail over, and behind
/// the type 3 packet the round is complete.
#[verifier::opaque]
pub open spec fn packet_answered(
    m: SessionModel,
    events: Seq<EventView>,
    round: RoundView,
    form: PacketForm,
    reply: Seq<u8>,
    now: Moment,
) -> TurnView {
    let counter = round.counter.wrapping_add(1);
    let tail = keepalive::tail_after(round.tail, reply);
    match form {
        PacketForm::Extra => packet_begun(
            m,
            events,
            RoundView { counter, ..round },
            PacketForm::Type1,
            now,
        ),
        PacketForm::Type1 => packet_begun(
            m,
            events,
            RoundView { counter, tail, ..round },
            PacketForm::Type3,
            now,
        ),
        PacketForm::Type3 => pausing(
            m,
            events.push(EventView::KeepAliveCycle { sequence: counter, tail }),
            StageView::CyclePause { round: RoundView { counter, tail, ..round } },
            ActionView::Sleep { ms: m.config.keepalive_interval_ms, interruptible: true },
        ),
    }
}

/// A reply to a 40-byte packet. A pushed message asks for the packet again under the next number
/// and without the opening marker; an acknowledgement completes it; anything else asks for it
/// again as it is. Neither completes the packet: when no send is left, it counts as unanswered.
#[verifier::opaque]
pub open spec fn packet_replied(
    m: SessionModel,
    events: Seq<EventView>,
    round: RoundView,
    form: PacketForm,
    sequence: u8,
    first: bool,
    left: u8,
    reply: Seq<u8>,
    now: Moment,
) -> TurnView {
    if keepalive::message_packet(reply) {
        let next = sequence.wrapping_add(1);
        let said = note(
            events,
            "服务器推送 "@ + text::decimal(reply.len()) + " 字节消息，保活序号推进到 "@
                + text::decimal(next as nat),
        );
        if left == 0 {
            gone_quiet(m, said, round.restarts, stage_name(form_type(form)), now)
        } else {
            packet_sent(m, said, round, form, next, false, (left - 1) as u8, now)
        }
    } else if keepalive::classified(reply, sequence, form is Extra)
        != KeepAliveResponse::Invalid {
        packet_answered(
            adopted(m, reply),
            adoption_noted(m, events, reply),
            round,
            form,
            reply,
            now,
        )
    } else if left == 0 {
        gone_quiet(m, events, round.restarts, stage_name(form_type(form)), now)
    } else {
        packet_sent(m, events, round, form, sequence, first, (left - 1) as u8, now)
    }
}

/// No reply to a 40-byte packet: silence, or a failure of the socket.
#[verifier::opaque]
pub open spec fn packet_unanswered(
    m: SessionModel,
    events: Seq<EventView>,
    round: RoundView,
    form: PacketForm,
    sequence: u8,
    first: bool,
    left: u8,
    failure: Option<TransportErrorKind>,
    now: Moment,
) -> TurnView {
    if left > 0 {
        packet_sent(m, events, round, form, sequence, first, (left - 1) as u8, now)
    } else {
        match failure {
            None => gone_quiet(m, events, round.restarts, stage_name(form_type(form)), now),
            Some(kind) => keepalive_ended(m, events, Err(ErrorView::Transport(kind)), now),
        }
    }
}

/// How a login ends. In a run, success leads on to the keep-alive.
#[verifier::opaque]
pub open spec fn login_ended(
    m: SessionModel,
    events: Seq<EventView>,
    result: Result<(), ErrorView>,
    now: Moment,
) -> TurnView {
    if m.running && result is Ok {
        keepalive_begun(m, events, now)
    } else {
        finished(m, events, result)
    }
}

/// A challenge to the server that the login budget names.
#[verifier::opaque]
pub open spec fn challenge_sent(
    m: SessionModel,
    events: Seq<EventView>,
    now: Moment,
) -> TurnView {
    let sequence = m.sequence.wrapping_add(1);
    sending(
        SessionModel { sequence, ..m },
        events,
        StageView::LoginChallenge { nonce: nonce_at(now) },
        SocketAddrV4 { ip: m.retry.current(), port: m.config.server_port },
        protocol::challenge_request_frame(sequence, nonce_at(now), CHALLENGE_CLIENT_OPTION),
    )
}

/// A login attempt begins, unless the session has been stopped.
#[verifier::opaque]
pub open spec fn login_begun(m: SessionModel, events: Seq<EventView>, now: Moment) -> TurnView {
    if now.stopped {
        login_ended(m, events, Err(ErrorView::Stopped), now)
    } else {
        challenge_sent(m, phase(events, SessionPhase::Challenge), now)
    }
}

/// Silence instead of a challenge: one send of the login budget, without a pause.
#[verifier::opaque]
pub open spec fn challenge_unanswered(
    m: SessionModel,
    events: Seq<EventView>,
    now: Moment,
) -> TurnView {
    let spent = SessionModel { retry: m.retry.after_timeout(), ..m };
    if m.retry.timeout_outcome() is AllServersExhausted {
        login_ended(spent, events, Err(ErrorView::NoResponse("挑战"@)), now)
    } else {
        challenge_sent(spent, events, now)
    }
}

/// The challenge is accepted: its source is the server from now on, and the login frame goes
/// there.
#[verifier::opaque]
pub open spec fn challenge_accepted(
    m: SessionModel,
    events: Seq<EventView>,
    source: SocketAddrV4,
    challenge: Seq<u8>,
    now: Moment,
) -> TurnView {
    let known = SessionModel { server: Some(source), salt: challenge, ..m };
    let said = phase(
        note(
            events,
            "挑战已接受：salt="@ + text::hex(challenge) + " 序号="@ + text::decimal(
                m.sequence as nat,
            ) + " 来自 "@ + net::endpoint_text(source),
        ),
        SessionPhase::Authenticating,
    );
    let frame = reference_login::login_frame(
        challenge,
        m.config.username@,
        m.config.password@,
        profile_of(m.config),
    );
    if m.config.username@.len() > reference_login::ACCOUNT_FIELD_LEN {
        login_ended(known, said, Err(ErrorView::Credentials(BuildError::UsernameTooLong)), now)
    } else if m.config.password@.len() > reference_login::MAX_PASSWORD_LEN {
        login_ended(known, said, Err(ErrorView::Credentials(BuildError::PasswordTooLong)), now)
    } else {
        sending(
            known,
            note(
                said,
                "登录报文 "@ + text::decimal(frame.len()) + " 字节，发往 "@ + net::endpoint_text(
                    source,
                ),
            ),
            StageView::Login,
            source,
            frame,
        )
    }
}

/// A login attempt that came to nothing: one send of the login budget, and a pause.
#[verifier::opaque]
pub open spec fn login_retried(
    m: SessionModel,
    events: Seq<EventView>,
    now: Moment,
) -> TurnView {
    let spent = SessionModel { retry: m.retry.after_timeout(), ..m };
    let pause = ActionView::Sleep { ms: RETRY_DELAY_MS, interruptible: true };
    match m.retry.timeout_outcome() {
        LoginTimeout::AllServersExhausted => login_ended(
            spent,
            events,
            Err(ErrorView::NoResponse("登录"@)),
            now,
        ),
        LoginTimeout::RetrySameServer(server) => pausing(
            spent,
            note(events, "重试登录，仍发往 "@ + net::ipv4_text(server)),
            StageView::LoginPause,
            pause,
        ),
        LoginTimeout::SwitchServer(server) => pausing(
            spent,
            note(events, "登录改用认证服务器 "@ + net::ipv4_text(server)),
            StageView::LoginPause,
            pause,
        ),
    }
}

/// The server's answer to the login frame. A rejection is final: the same frame would be rejected
/// again.
#[verifier::opaque]
pub open spec fn login_replied(
    m: SessionModel,
    events: Seq<EventView>,
    reply: Seq<u8>,
    now: Moment,
) -> TurnView {
    match login_response::parsed(reply) {
        ResponseView::Success { session_cookie, raw } => login_ended(
            SessionModel {
                cookie: session_cookie,
                connected_since: Some(now.uptime_ms),
                ..m
            },
            phase(
                note(events, "认证成功，会话尾码 "@ + text::hex(session_cookie)),
                SessionPhase::Online,
            ),
            Ok(()),
            now,
        ),
        ResponseView::Failure(failure) => login_ended(
            m,
            note(events, "认证被拒绝，错误码 "@ + text::decimal(failure.code as nat)),
            Err(ErrorView::Rejected(failure)),
            now,
        ),
        ResponseView::Other(kind) => login_retried(
            m,
            note(events, "未识别的响应类型 0x"@ + text::hex_byte(kind) + "，重新认证"@),
            now,
        ),
        ResponseView::ShortSuccess { raw } => login_retried(
            m,
            note(events, "响应过短，重新认证"@),
            now,
        ),
        ResponseView::TooShort => login_retried(m, note(events, "响应过短，重新认证"@), now),
    }
}

/// How the operation that `stage` belongs to ends.
pub open spec fn operation_ended(
    m: SessionModel,
    result: Result<(), ErrorView>,
    now: Moment,
) -> TurnView {
    match m.stage {
        StageView::LoginChallenge { .. } | StageView::Login | StageView::LoginPause => login_ended(
            m,
            Seq::empty(),
            result,
            now,
        ),
        StageView::Primary { .. }
        | StageView::Packet { .. }
        | StageView::CyclePause { .. }
        | StageView::Resync { .. } => keepalive_ended(m, Seq::empty(), result, now),
        _ => logout_ended(m, Seq::empty(), result),
    }
}

/// The exchange that a challenge stage waits for.
pub open spec fn pending_exchange(m: SessionModel) -> ChallengeExchange {
    match m.stage {
        StageView::LogoutChallenge { nonce } => ChallengeExchange {
            destination: m.server->0,
            sequence: m.sequence,
            nonce,
            client_option: CHALLENGE_CLIENT_OPTION,
            accepted_source: Some(m.server->0.ip),
        },
        StageView::LoginChallenge { nonce } => ChallengeExchange {
            destination: SocketAddrV4 { ip: m.retry.current(), port: m.config.server_port },
            sequence: m.sequence,
            nonce,
            client_option: CHALLENGE_CLIENT_OPTION,
            accepted_source: None,
        },
        _ => arbitrary(),
    }
}

/// Whether a datagram concerns the session where it stands: an answer or a refusal while a
/// challenge is out, and otherwise anything from the server that answered the challenge.
pub open spec fn concerns(m: SessionModel, source: SocketAddrV4, datagram: Seq<u8>) -> bool {
    match m.stage {
        StageView::LoginChallenge { .. } | StageView::LogoutChallenge { .. } => {
            &&& m.stage is LogoutChallenge ==> m.server is Some
            &&& auth::from_accepted_source(pending_exchange(m), source)
            &&& auth::is_refusal(datagram) || auth::is_answer(pending_exchange(m), datagram)
        },
        _ => m.server == Some(source),
    }
}

/// After a datagram that concerns the session.
pub open spec fn after_reply(
    m: SessionModel,
    source: SocketAddrV4,
    datagram: Seq<u8>,
    now: Moment,
) -> TurnView {
    match m.stage {
        StageView::LoginChallenge { .. } => if auth::is_refusal(datagram) {
            login_ended(m, Seq::empty(), Err(ErrorView::Challenge("服务器拒绝了挑战请求"@)), now)
        } else {
            challenge_accepted(m, Seq::empty(), source, datagram.subrange(4, 8), now)
        },
        StageView::Login => login_replied(m, Seq::empty(), datagram, now),
        StageView::Primary { round, seconds, left } => if datagram.len() > 0 && datagram[0]
            == 0x07 {
            primary_answered(
                adopted(m, datagram),
                adoption_noted(m, Seq::empty(), datagram),
                round,
                now,
            )
        } else {
            primary_tried(m, Seq::empty(), round, seconds, left, now)
        },
        StageView::Packet { round, form, sequence, first, left } => packet_replied(
            m,
            Seq::empty(),
            round,
            form,
            sequence,
            first,
            left,
            datagram,
            now,
        ),
        StageView::LogoutChallenge { .. } => if auth::is_refusal(datagram) {
            logout_ended(m, Seq::empty(), Err(ErrorView::Challenge("服务器拒绝了下线挑战请求"@)))
        } else {
            logout_answered(m, Seq::empty(), datagram.subrange(4, 8))
        },
        _ => logout_closed(m, Seq::empty(), Some(datagram)),
    }
}

/// After a wait in which nothing came.
pub open spec fn after_silence(m: SessionModel, now: Moment) -> TurnView {
    match m.stage {
        StageView::LoginChallenge { .. } => challenge_unanswered(m, Seq::empty(), now),
        StageView::Login => login_retried(m, note(Seq::empty(), "登录 响应超时"@), now),
        StageView::Primary { round, seconds, left } => primary_tried(
            m,
            Seq::empty(),
            round,
            seconds,
            left,
            now,
        ),
        StageView::Packet { round, form, sequence, first, left } => packet_unanswered(
            m,
            Seq::empty(),
            round,
            form,
            sequence,
            first,
            left,
            None,
            now,
        ),
        StageView::LogoutChallenge { .. } => logout_ended(
            m,
            Seq::empty(),
            Err(ErrorView::NoResponse("下线挑战"@)),
        ),
        _ => logout_closed(m, Seq::empty(), None),
    }
}

/// After a wait that the socket failed.
pub open spec fn after_receive_failure(
    m: SessionModel,
    kind: TransportErrorKind,
    now: Moment,
) -> TurnView {
    match m.stage {
        StageView::Packet { round, form, sequence, first, left } => packet_unanswered(
            m,
            Seq::empty(),
            round,
            form,
            sequence,
            first,
            left,
            Some(kind),
            now,
        ),
        _ => operation_ended(m, Err(ErrorView::Transport(kind)), now),
    }
}

/// After a pause.
pub open spec fn after_pause(m: SessionModel, completed: bool, now: Moment) -> TurnView {
    match m.stage {
        StageView::LoginPause => if completed {
            login_begun(m, Seq::empty(), now)
        } else {
            login_ended(m, Seq::empty(), Err(ErrorView::Stopped), now)
        },
        StageView::CyclePause { round } => if completed {
            round_begun(m, Seq::empty(), round, now)
        } else {
            keepalive_ended(m, Seq::empty(), Ok(()), now)
        },
        StageView::Resync { restarts } => if completed {
            rounds_begun(m, Seq::empty(), restarts, now)
        } else {
            keepalive_ended(m, Seq::empty(), Ok(()), now)
        },
        StageView::LogoutPause { nonce } => logout_challenged(m, Seq::empty(), nonce),
        _ => operation_ended(m, Err(ErrorView::Stopped), now),
    }
}

/// After a datagram has gone out: the wait for its reply, or the pause behind a logout's ping.
pub open spec fn after_send(m: SessionModel) -> TurnView {
    match m.stage {
        StageView::LogoutPing { nonce } => pausing(
            m,
            Seq::empty(),
            StageView::LogoutPause { nonce },
            ActionView::Sleep { ms: auth::LOGOUT_PAUSE_MS, interruptible: false },
        ),
        _ => TurnView {
            model: SessionModel { awaiting: Awaiting::Reply, ..m },
            events: Seq::empty(),
            action: ActionView::Receive,
        },
    }
}

/// Whether an input is what the session waits for.
pub open spec fn expected(m: SessionModel, input: SessionInput) -> bool {
    match input {
        SessionInput::Sent | SessionInput::SendFailed(_) => m.awaiting is Send,
        SessionInput::Received { .. }
        | SessionInput::TimedOut
        | SessionInput::ReceiveFailed(_) => m.awaiting is Reply,
        SessionInput::Slept { .. } => m.awaiting is Wake,
    }
}

/// The step of a session.
pub open spec fn next(m: SessionModel, input: SessionInput, now: Moment) -> TurnView {
    match input {
        SessionInput::Sent => after_send(m),
        SessionInput::SendFailed(kind) => operation_ended(m, Err(ErrorView::Transport(kind)), now),
        SessionInput::Received { source, datagram } => if concerns(m, source, datagram@) {
            after_reply(m, source, datagram@, now)
        } else {
            TurnView { model: m, events: Seq::empty(), action: ActionView::KeepReceiving }
        },
        SessionInput::TimedOut => after_silence(m, now),
        SessionInput::ReceiveFailed(kind) => after_receive_failure(m, kind, now),
        SessionInput::Slept { completed } => after_pause(m, completed, now),
    }
}

/// A session's answer as one value.
pub open spec fn turn_of(
    model: SessionModel,
    events: Seq<SessionEvent>,
    action: Action,
) -> TurnView {
    TurnView { model, events: event_views(events), action: action@ }
}

fn emit(events: &mut Vec<SessionEvent>, event: SessionEvent)
    ensures
        event_views(final(events)@) == event_views(old(events)@).push(event@),
{
    events.push(event);
    assert(event_views(events@) =~= event_views(old(events)@).push(event@));
}

fn emit_note(events: &mut Vec<SessionEvent>, words: String)
    ensures
        event_views(final(events)@) == note(event_views(old(events)@), words@),
{
    emit(events, SessionEvent::Note(words));
}

fn emit_phase(events: &mut Vec<SessionEvent>, reached: SessionPhase)
    ensures
        event_views(final(events)@) == phase(event_views(old(events)@), reached),
{
    emit(events, SessionEvent::Phase(reached));
}

fn no_events() -> (events: Vec<SessionEvent>)
    ensures
        event_views(events@) == Seq::<EventView>::empty(),
{
    let events: Vec<SessionEvent> = Vec::new();
    assert(event_views(events@) =~= Seq::<EventView>::empty());
    events
}

/// The name of the stage that a packet type belongs to.
pub fn keepalive_stage(packet_type: KeepAlivePacketType) -> (name: &'static str)
    ensures
        name@ == stage_name(packet_type),
{
    match packet_type {
        KeepAlivePacketType::Type1 => "保活 type1",
        KeepAlivePacketType::Type3 => "保活 type3",
    }
}

fn type_of_form(form: PacketForm) -> (packet_type: KeepAlivePacketType)
    ensures
        packet_type == form_type(form),
{
    match form {
        PacketForm::Type3 => KeepAlivePacketType::Type3,
        _ => KeepAlivePacketType::Type1,
    }
}

fn same_pair(one: &[u8; 2], other: &[u8; 2]) -> (equal: bool)
    ensures
        equal == (one@ == other@),
{
    let equal = one[0] == other[0] && one[1] == other[1];
    proof {
        if equal {
            assert(one@ =~= other@);
        } else {
            assert(one@[0] != other@[0] || one@[1] != other@[1]);
        }
    }
    equal
}

impl LoginSession {
    pub fn new(config: SessionConfig) -> (result: Result<Self, SessionError>)
        ensures
            match result {
                Ok(session) => {
                    &&& crate::retry::list_refusal(
                        config.servers@,
                        config.allow_loopback_server,
                    ) is None
                    &&& session@ == fresh_session(config)
                },
                Err(error) => crate::retry::list_refusal(
                    config.servers@,
                    config.allow_loopback_server,
                ) matches Some(refusal) && error@ == ErrorView::Configuration(refusal),
            },
    {
        let built = if config.allow_loopback_server {
            LoginRetry::new_accepting_loopback(copy_servers(&config.servers))
        } else {
            LoginRetry::new(copy_servers(&config.servers))
        };
        match built {
            Err(error) => Err(SessionError::Configuration(error)),
            Ok(retry) => {
                let keepalive_version = config.keepalive_version;
                let session = LoginSession {
                    config,
                    retry,
                    sequence: FIRST_CHALLENGE_SEQUENCE.wrapping_sub(1),
                    salt: [0; 4],
                    cookie: [0; 16],
                    keepalive_version,
                    server: None,
                    connected_since: None,
                    stage: Stage::Idle,
                    awaiting: Awaiting::Nothing,
                    running: false,
                };
                assert(session@.salt =~= crate::bytes::zeros(4));
                assert(session@.cookie =~= crate::bytes::zeros(16));
                assert(session@.retry == RetryState::fresh(config.servers@));
                Ok(session)
            },
        }
    }

    pub fn config(&self) -> (config: &SessionConfig)
        ensures
            *config == self@.config,
    {
        &self.config
    }

    pub fn session_cookie(&self) -> (cookie: [u8; 16])
        ensures
            cookie@ == self@.cookie,
    {
        self.cookie
    }

    /// How long the session has been online, in milliseconds, where it is or was.
    pub fn connected_for(&self, uptime_ms: u64) -> (duration: Option<u64>)
        ensures
            duration == (match self@.connected_since {
                Some(since) => Some(
                    if uptime_ms >= since {
                        (uptime_ms - since) as u64
                    } else {
                        0
                    },
                ),
                None => None,
            }),
    {
        match self.connected_since {
            Some(since) => Some(
                if uptime_ms >= since {
                    uptime_ms - since
                } else {
                    0
                },
            ),
            None => None,
        }
    }

    /// What the login frame states about the machine.
    fn reference_config(&self) -> (config: ReferenceLoginConfig)
        ensures
            config@ == profile_of(self@.config),
    {
        ReferenceLoginConfig {
            host_ipv4: self.config.local_ipv4.octets(),
            mac: self.config.mac,
            hostname: vstd::slice::slice_to_vec(&self.config.hostname),
            primary_dns: self.config.primary_dns,
            dhcp_server: self.config.dhcp_server,
            auth_version: self.config.auth_version,
            control_status: self.config.control_status,
            adapter_num: self.config.adapter_num,
            ip_dog: self.config.ip_dog,
        }
    }

    fn rest(&mut self, result: Result<(), SessionError>) -> (action: Action)
        ensures
            forall|events: Seq<SessionEvent>|
                #[trigger] turn_of(final(self)@, events, action) == finished(
                    old(self)@,
                    event_views(events),
                    result_view(result),
                ),
    {
        self.stage = Stage::Idle;
        self.awaiting = Awaiting::Nothing;
        Action::Finished(result)
    }

    fn send_at(&mut self, stage: Stage, to: SocketAddrV4, datagram: Vec<u8>) -> (action: Action)
        ensures
            forall|events: Seq<SessionEvent>|
                #[trigger] turn_of(final(self)@, events, action) == sending(
                    old(self)@,
                    event_views(events),
                    stage@,
                    to,
                    datagram@,
                ),
    {
        self.stage = stage;
        self.awaiting = Awaiting::Send;
        Action::Send { to, datagram }
    }

    fn pause_at(&mut self, stage: Stage, action: Action) -> (same: Action)
        ensures
            forall|events: Seq<SessionEvent>|
                #[trigger] turn_of(final(self)@, events, same) == pausing(
                    old(self)@,
                    event_views(events),
                    stage@,
                    action@,
                ),
    {
        self.stage = stage;
        self.awaiting = Awaiting::Wake;
        action
    }

    fn primary_bytes(&self, seconds: u64) -> (datagram: Vec<u8>)
        ensures
            datagram@ == primary_datagram(self@, seconds),
    {
        let digest = reference_login::first_digest(&self.salt, &self.config.password);
        let packet = keepalive::primary_keepalive(digest, self.cookie, seconds);
        vstd::slice::slice_to_vec(&packet)
    }

    fn end_logout(&mut self, events: &mut Vec<SessionEvent>, result: Result<(), SessionError>) -> (
    action: Action)
        ensures
            turn_of(final(self)@, final(events)@, action) == logout_ended(
                old(self)@,
                event_views(old(events)@),
                result_view(result),
            ),
    {
        proof {
            reveal(logout_ended);
        }
        if !self.running {
            return self.rest(result);
        }
        match result {
            Err(error) => {
                if matches!(error, SessionError::Stopped) {
                    self.rest(Ok(()))
                } else {
                    let mut words = "下线失败：".to_string();
                    words.append(&error.to_text(&[]));
                    emit_note(events, words);
                    self.rest(Ok(()))
                }
            },
            Ok(()) => self.rest(Ok(())),
        }
    }

    fn begin_logout(&mut self, events: &mut Vec<SessionEvent>, now: Moment) -> (action: Action)
        ensures
            turn_of(final(self)@, final(events)@, action) == logout_begun(
                old(self)@,
                event_views(old(events)@),
                now,
            ),
    {
        proof {
            reveal(logout_begun);
        }
        match self.server {
            None => self.end_logout(
                events,
                Err(SessionError::Challenge("尚未选定认证服务器")),
            ),
            Some(server) => {
                let ping = self.primary_bytes(now.unix_seconds);
                self.sequence = self.sequence.wrapping_add(1);
                let nonce: u16 = reference_login::challenge_nonce(now.unix_seconds);
                self.send_at(Stage::LogoutPing { nonce }, server, ping)
            },
        }
    }

    fn challenge_logout(&mut self, events: &mut Vec<SessionEvent>, nonce: u16) -> (action: Action)
        ensures
            turn_of(final(self)@, final(events)@, action) == logout_challenged(
                old(self)@,
                event_views(old(events)@),
                nonce,
            ),
    {
        proof {
            reveal(logout_challenged);
        }
        match self.server {
            None => self.end_logout(
                events,
                Err(SessionError::Challenge("尚未选定认证服务器")),
            ),
            Some(server) => {
                let exchange = auth::exchange_logout_challenge(
                    server,
                    self.sequence,
                    nonce,
                    CHALLENGE_CLIENT_OPTION,
                );
                let request = exchange.request();
                self.send_at(
                    Stage::LogoutChallenge { nonce },
                    server,
                    vstd::slice::slice_to_vec(&request),
                )
            },
        }
    }

    fn answer_logout(&mut self, events: &mut Vec<SessionEvent>, challenge: [u8; 4]) -> (action:
        Action)
        ensures
            turn_of(final(self)@, final(events)@, action) == logout_answered(
                old(self)@,
                event_views(old(events)@),
                challenge@,
            ),
    {
        proof {
            reveal(logout_answered);
        }
        let built = protocol::logout_packet(
            challenge,
            &self.config.username,
            &self.config.password,
            self.config.control_status,
            self.sequence,
            reference_login::mac_octets(self.config.mac),
            self.cookie,
        );
        match built {
            Err(error) => self.end_logout(events, Err(SessionError::LogoutPacket(error))),
            Ok(frame) => match self.server {
                None => self.end_logout(
                    events,
                    Err(SessionError::Challenge("尚未选定认证服务器")),
                ),
                Some(server) => self.send_at(
                    Stage::Logout,
                    server,
                    vstd::slice::slice_to_vec(&frame),
                ),
            },
        }
    }

    fn close_logout(&mut self, events: &mut Vec<SessionEvent>, reply: Option<&Vec<u8>>) -> (action:
        Action)
        ensures
            turn_of(final(self)@, final(events)@, action) == logout_closed(
                old(self)@,
                event_views(old(events)@),
                match reply {
                    Some(datagram) => Some(datagram@),
                    None => None,
                },
            ),
    {
        proof {
            reveal(logout_closed);
        }
        let said = match reply {
            Some(datagram) => {
                let first: u8 = if datagram.len() > 0 {
                    datagram[0]
                } else {
                    0
                };
                let mut words = "下线响应 0x".to_string();
                words.append(&hex_of_byte(first));
                words.append("，");
                words.append(&text::decimal_text(datagram.len() as u64));
                words.append(" 字节");
                words
            },
            None => "下线响应超时，连接已交由服务器回收".to_string(),
        };
        emit_note(events, said);
        emit_phase(events, SessionPhase::LoggedOut);
        self.end_logout(events, Ok(()))
    }

    fn end_keepalive(
        &mut self,
        events: &mut Vec<SessionEvent>,
        result: Result<(), SessionError>,
        now: Moment,
    ) -> (action: Action)
        ensures
            turn_of(final(self)@, final(events)@, action) == keepalive_ended(
                old(self)@,
                event_views(old(events)@),
                result_view(result),
                now,
            ),
    {
        proof {
            reveal(keepalive_ended);
        }
        if !self.running {
            return self.rest(result);
        }
        match result {
            Err(error) => {
                if matches!(error, SessionError::Stopped) {
                    self.begin_logout(events, now)
                } else {
                    self.rest(Err(error))
                }
            },
            Ok(()) => self.begin_logout(events, now),
        }
    }

    fn go_quiet(
        &mut self,
        events: &mut Vec<SessionEvent>,
        restarts: u8,
        stage: &'static str,
        now: Moment,
    ) -> (action: Action)
        ensures
            turn_of(final(self)@, final(events)@, action) == gone_quiet(
                old(self)@,
                event_views(old(events)@),
                restarts,
                stage@,
                now,
            ),
    {
        proof {
            reveal(gone_quiet);
        }
        let again: u8 = if restarts < 255 {
            restarts + 1
        } else {
            255
        };
        if again >= self.config.keepalive_retries {
            return self.end_keepalive(events, Err(SessionError::NoResponse(stage)), now);
        }
        let mut words = stage.to_string();
        words.append("失败，重新进入主保活 (");
        words.append(&text::decimal_text(again as u64));
        words.append("/");
        words.append(&text::decimal_text(self.config.keepalive_retries as u64));
        words.append(")");
        emit_note(events, words);
        self.pause_at(Stage::Resync { restarts: again }, Action::Resync { ms: RESYNC_DELAY_MS })
    }

    fn send_keepalive(
        &mut self,
        events: &mut Vec<SessionEvent>,
        stage: Stage,
        datagram: Vec<u8>,
        now: Moment,
    ) -> (action: Action)
        ensures
            turn_of(final(self)@, final(events)@, action) == keepalive_sent(
                old(self)@,
                event_views(old(events)@),
                stage@,
                datagram@,
                now,
            ),
    {
        proof {
            reveal(keepalive_sent);
        }
        match self.server {
            None => self.end_keepalive(
                events,
                Err(SessionError::Challenge("尚未选定认证服务器")),
                now,
            ),
            Some(server) => self.send_at(stage, server, datagram),
        }
    }

    fn send_primary_keepalive(
        &mut self,
        events: &mut Vec<SessionEvent>,
        round: Round,
        seconds: u64,
        left: u8,
        now: Moment,
    ) -> (action: Action)
        ensures
            turn_of(final(self)@, final(events)@, action) == primary_tried(
                old(self)@,
                event_views(old(events)@),
                round@,
                seconds,
                left,
                now,
            ),
    {
        proof {
            reveal(primary_tried);
        }
        if left == 0 {
            emit_note(events, "主保活连续无响应".to_string());
            return self.go_quiet(events, round.restarts, "主保活", now);
        }
        let datagram = self.primary_bytes(seconds);
        self.send_keepalive(
            events,
            Stage::Primary { round, seconds, left: left - 1 },
            datagram,
            now,
        )
    }

    fn begin_round(&mut self, events: &mut Vec<SessionEvent>, round: Round, now: Moment) -> (action:
        Action)
        ensures
            turn_of(final(self)@, final(events)@, action) == round_begun(
                old(self)@,
                event_views(old(events)@),
                round@,
                now,
            ),
    {
        proof {
            reveal(round_begun);
        }
        match self.server {
            None => self.end_keepalive(
                events,
                Err(SessionError::Challenge("尚未选定认证服务器")),
                now,
            ),
            Some(_) => {
                let retries: u8 = self.config.keepalive_retries;
                self.send_primary_keepalive(events, round, now.unix_seconds, retries, now)
            },
        }
    }

    fn keepalive_session(
        &mut self,
        events: &mut Vec<SessionEvent>,
        restarts: u8,
        now: Moment,
    ) -> (action: Action)
        ensures
            turn_of(final(self)@, final(events)@, action) == rounds_begun(
                old(self)@,
                event_views(old(events)@),
                restarts,
                now,
            ),
    {
        proof {
            reveal(rounds_begun);
        }
        if now.stopped {
            return self.end_keepalive(events, Ok(()), now);
        }
        let round = Round { counter: 0, tail: [0; 4], restarts };
        assert(round@.tail =~= crate::bytes::zeros(4));
        self.begin_round(events, round, now)
    }

    fn begin_keepalive(&mut self, events: &mut Vec<SessionEvent>, now: Moment) -> (action: Action)
        ensures
            turn_of(final(self)@, final(events)@, action) == keepalive_begun(
                old(self)@,
                event_views(old(events)@),
                now,
            ),
    {
        emit_phase(events, SessionPhase::KeepAlive);
        self.keepalive_session(events, 0, now)
    }

    /// Takes the version pair over from a reply that carries one.
    fn adopt_keepalive_version(&mut self, events: &mut Vec<SessionEvent>, reply: &[u8])
        ensures
            final(self)@ == adopted(old(self)@, reply@),
            event_views(final(events)@) == adoption_noted(
                old(self)@,
                event_views(old(events)@),
                reply@,
            ),
    {
        if let Some(version) = keepalive::negotiated_version(reply) {
            if !same_pair(&version, &self.keepalive_version) {
                let mut words = "保活版本 ".to_string();
                words.append(&text::hex_text(&self.keepalive_version));
                words.append(" 改为 ");
                words.append(&text::hex_text(&version));
                words.append("（取自服务器响应）");
                emit_note(events, words);
                self.keepalive_version = version;
            }
        }
    }

    fn send_keepalive_packet(
        &mut self,
        events: &mut Vec<SessionEvent>,
        round: Round,
        form: PacketForm,
        sequence: u8,
        first: bool,
        left: u8,
        now: Moment,
    ) -> (action: Action)
        ensures
            turn_of(final(self)@, final(events)@, action) == packet_sent(
                old(self)@,
                event_views(old(events)@),
                round@,
                form,
                sequence,
                first,
                left,
                now,
            ),
    {
        proof {
            reveal(packet_sent);
        }
        let packet = keepalive::build_packet_negotiated(
            sequence,
            round.tail,
            type_of_form(form),
            first,
            keepalive::REFERENCE_NONCE,
            self.keepalive_version,
            self.config.local_ipv4.octets(),
            self.config.keepalive_checksum,
        );
        self.send_keepalive(
            events,
            Stage::Packet { round, form, sequence, first, left },
            vstd::slice::slice_to_vec(&packet),
            now,
        )
    }

    fn begin_packet(
        &mut self,
        events: &mut Vec<SessionEvent>,
        round: Round,
        form: PacketForm,
        now: Moment,
    ) -> (action: Action)
        ensures
            turn_of(final(self)@, final(events)@, action) == packet_begun(
                old(self)@,
                event_views(old(events)@),
                round@,
                form,
                now,
            ),
    {
        proof {
            reveal(packet_begun);
        }
        let retries: u8 = self.config.keepalive_retries;
        if retries == 0 {
            return self.go_quiet(events, round.restarts, keepalive_stage(type_of_form(form)), now);
        }
        self.send_keepalive_packet(
            events,
            round,
            form,
            round.counter,
            matches!(form, PacketForm::Extra),
            retries - 1,
            now,
        )
    }

    fn after_primary(&mut self, events: &mut Vec<SessionEvent>, round: Round, now: Moment) -> (
    action: Action)
        ensures
            turn_of(final(self)@, final(events)@, action) == primary_answered(
                old(self)@,
                event_views(old(events)@),
                round@,
                now,
            ),
    {
        proof {
            reveal(primary_answered);
        }
        let form = if round.counter % EXTRA_EVERY == 0 {
            PacketForm::Extra
        } else {
            PacketForm::Type1
        };
        self.begin_packet(events, round, form, now)
    }

    fn after_packet(
        &mut self,
        events: &mut Vec<SessionEvent>,
        round: Round,
        form: PacketForm,
        reply: &[u8],
        now: Moment,
    ) -> (action: Action)
        ensures
            turn_of(final(self)@, final(events)@, action) == packet_answered(
                old(self)@,
                event_views(old(events)@),
                round@,
                form,
                reply@,
                now,
            ),
    {
        proof {
            reveal(packet_answered);
        }
        let counter: u8 = round.counter.wrapping_add(1);
        let mut tail = round.tail;
        keepalive::update_tail(&mut tail, reply);
        match form {
            PacketForm::Extra => self.begin_packet(
                events,
                Round { counter, tail: round.tail, restarts: round.restarts },
                PacketForm::Type1,
                now,
            ),
            PacketForm::Type1 => self.begin_packet(
                events,
                Round { counter, tail, restarts: round.restarts },
                PacketForm::Type3,
                now,
            ),
            PacketForm::Type3 => {
                emit(events, SessionEvent::KeepAliveCycle { sequence: counter, tail });
                let ms: u64 = self.config.keepalive_interval_ms;
                self.pause_at(
                    Stage::CyclePause { round: Round { counter, tail, restarts: round.restarts } },
                    Action::Sleep { ms, interruptible: true },
                )
            },
        }
    }

    fn packet_reply(
        &mut self,
        events: &mut Vec<SessionEvent>,
        round: Round,
        form: PacketForm,
        sequence: u8,
        first: bool,
        left: u8,
        reply: &[u8],
        now: Moment,
    ) -> (action: Action)
        ensures
            turn_of(final(self)@, final(events)@, action) == packet_replied(
                old(self)@,
                event_views(old(events)@),
                round@,
                form,
                sequence,
                first,
                left,
                reply@,
                now,
            ),
    {
        proof {
            reveal(packet_replied);
        }
        if keepalive::is_message_packet(reply) {
            let next: u8 = sequence.wrapping_add(1);
            let mut words = "服务器推送 ".to_string();
            words.append(&text::decimal_text(reply.len() as u64));
            words.append(" 字节消息，保活序号推进到 ");
            words.append(&text::decimal_text(next as u64));
            emit_note(events, words);
            if left == 0 {
                return self.go_quiet(
                    events,
                    round.restarts,
                    keepalive_stage(type_of_form(form)),
                    now,
                );
            }
            return self.send_keepalive_packet(events, round, form, next, false, left - 1, now);
        }
        let response = keepalive::classify_response(
            reply,
            sequence,
            matches!(form, PacketForm::Extra),
        );
        if response != KeepAliveResponse::Invalid {
            self.adopt_keepalive_version(events, reply);
            return self.after_packet(events, round, form, reply, now);
        }
        if left == 0 {
            return self.go_quiet(events, round.restarts, keepalive_stage(type_of_form(form)), now);
        }
        self.send_keepalive_packet(events, round, form, sequence, first, left - 1, now)
    }

    fn packet_silence(
        &mut self,
        events: &mut Vec<SessionEvent>,
        round: Round,
        form: PacketForm,
        sequence: u8,
        first: bool,
        left: u8,
        failure: Option<TransportErrorKind>,
        now: Moment,
    ) -> (action: Action)
        ensures
            turn_of(final(self)@, final(events)@, action) == packet_unanswered(
                old(self)@,
                event_views(old(events)@),
                round@,
                form,
                sequence,
                first,
                left,
                failure,
                now,
            ),
    {
        proof {
            reveal(packet_unanswered);
        }
        if left > 0 {
            return self.send_keepalive_packet(events, round, form, sequence, first, left - 1, now);
        }
        match failure {
            None => self.go_quiet(
                events,
                round.restarts,
                keepalive_stage(type_of_form(form)),
                now,
            ),
            Some(kind) => self.end_keepalive(events, Err(SessionError::Transport(kind)), now),
        }
    }

    fn end_login(
        &mut self,
        events: &mut Vec<SessionEvent>,
        result: Result<(), SessionError>,
        now: Moment,
    ) -> (action: Action)
        ensures
            turn_of(final(self)@, final(events)@, action) == login_ended(
                old(self)@,
                event_views(old(events)@),
                result_view(result),
                now,
            ),
    {
        proof {
            reveal(login_ended);
        }
        if self.running && result.is_ok() {
            self.begin_keepalive(events, now)
        } else {
            self.rest(result)
        }
    }

    fn request_challenge(&mut self, events: &mut Vec<SessionEvent>, now: Moment) -> (action: Action)
        ensures
            turn_of(final(self)@, final(events)@, action) == challenge_sent(
                old(self)@,
                event_views(old(events)@),
                now,
            ),
    {
        proof {
            reveal(challenge_sent);
        }
        let nonce: u16 = reference_login::challenge_nonce(now.unix_seconds);
        let mut sequence: u8 = self.sequence;
        let exchange = auth::connect_challenge_with(
            &self.retry,
            &mut sequence,
            self.config.server_port,
            CHALLENGE_CLIENT_OPTION,
            nonce,
        );
        self.sequence = sequence;
        let request = exchange.request();
        self.send_at(
            Stage::LoginChallenge { nonce },
            exchange.destination,
            vstd::slice::slice_to_vec(&request),
        )
    }

    fn begin_login(&mut self, events: &mut Vec<SessionEvent>, now: Moment) -> (action: Action)
        ensures
            turn_of(final(self)@, final(events)@, action) == login_begun(
                old(self)@,
                event_views(old(events)@),
                now,
            ),
    {
        proof {
            reveal(login_begun);
        }
        if now.stopped {
            return self.end_login(events, Err(SessionError::Stopped), now);
        }
        emit_phase(events, SessionPhase::Challenge);
        self.request_challenge(events, now)
    }

    fn challenge_silence(&mut self, events: &mut Vec<SessionEvent>, now: Moment) -> (action: Action)
        ensures
            turn_of(final(self)@, final(events)@, action) == challenge_unanswered(
                old(self)@,
                event_views(old(events)@),
                now,
            ),
    {
        proof {
            reveal(challenge_unanswered);
        }
        match auth::run_challenge_retries(&mut self.retry, ChallengeExchangeError::TimedOut) {
            Some(_) => self.end_login(events, Err(SessionError::NoResponse("挑战")), now),
            None => self.request_challenge(events, now),
        }
    }

    fn accept_challenge(
        &mut self,
        events: &mut Vec<SessionEvent>,
        source: SocketAddrV4,
        challenge: [u8; 4],
        now: Moment,
    ) -> (action: Action)
        ensures
            turn_of(final(self)@, final(events)@, action) == challenge_accepted(
                old(self)@,
                event_views(old(events)@),
                source,
                challenge@,
                now,
            ),
    {
        proof {
            reveal(challenge_accepted);
        }
        self.server = Some(source);
        self.salt = challenge;
        let mut words = "挑战已接受：salt=".to_string();
        words.append(&text::hex_text(&challenge));
        words.append(" 序号=");
        words.append(&text::decimal_text(self.sequence as u64));
        words.append(" 来自 ");
        words.append(&net::endpoint_string(source));
        emit_note(events, words);
        emit_phase(events, SessionPhase::Authenticating);
        let built = reference_login::build_login_packet(
            &self.salt,
            &self.config.username,
            &self.config.password,
            &self.reference_config(),
        );
        match built {
            Err(error) => self.end_login(events, Err(SessionError::Credentials(error)), now),
            Ok(frame) => {
                let mut words = "登录报文 ".to_string();
                words.append(&text::decimal_text(frame.len() as u64));
                words.append(" 字节，发往 ");
                words.append(&net::endpoint_string(source));
                emit_note(events, words);
                self.send_at(Stage::Login, source, frame)
            },
        }
    }

    /// Takes one send from the shared login budget.
    fn retry_or_fail(&mut self, events: &mut Vec<SessionEvent>, now: Moment) -> (action: Action)
        ensures
            turn_of(final(self)@, final(events)@, action) == login_retried(
                old(self)@,
                event_views(old(events)@),
                now,
            ),
    {
        proof {
            reveal(login_retried);
        }
        let words = match self.retry.on_login_timeout() {
            LoginTimeout::AllServersExhausted => {
                return self.end_login(events, Err(SessionError::NoResponse("登录")), now);
            },
            LoginTimeout::RetrySameServer(server) => {
                let mut words = "重试登录，仍发往 ".to_string();
                words.append(&net::ipv4_string(server));
                words
            },
            LoginTimeout::SwitchServer(server) => {
                let mut words = "登录改用认证服务器 ".to_string();
                words.append(&net::ipv4_string(server));
                words
            },
        };
        emit_note(events, words);
        self.pause_at(
            Stage::LoginPause,
            Action::Sleep { ms: RETRY_DELAY_MS, interruptible: true },
        )
    }

    fn login_reply(&mut self, events: &mut Vec<SessionEvent>, reply: &[u8], now: Moment) -> (action:
        Action)
        ensures
            turn_of(final(self)@, final(events)@, action) == login_replied(
                old(self)@,
                event_views(old(events)@),
                reply@,
                now,
            ),
    {
        proof {
            reveal(login_replied);
        }
        match login_response::parse(reply) {
            LoginResponse::Success(success) => {
                self.cookie = success.session_cookie;
                self.connected_since = Some(now.uptime_ms);
                let mut words = "认证成功，会话尾码 ".to_string();
                words.append(&text::hex_text(&success.session_cookie));
                emit_note(events, words);
                emit_phase(events, SessionPhase::Online);
                self.end_login(events, Ok(()), now)
            },
            LoginResponse::Failure(failure) => {
                let mut words = "认证被拒绝，错误码 ".to_string();
                words.append(&text::decimal_text(failure.code as u64));
                emit_note(events, words);
                self.end_login(events, Err(SessionError::Rejected(failure)), now)
            },
            LoginResponse::Other(kind) => {
                let mut words = "未识别的响应类型 0x".to_string();
                words.append(&hex_of_byte(kind));
                words.append("，重新认证");
                emit_note(events, words);
                self.retry_or_fail(events, now)
            },
            LoginResponse::ShortSuccess(_) | LoginResponse::TooShort => {
                emit_note(events, "响应过短，重新认证".to_string());
                self.retry_or_fail(events, now)
            },
        }
    }

    fn end_operation(
        &mut self,
        events: &mut Vec<SessionEvent>,
        result: Result<(), SessionError>,
        now: Moment,
    ) -> (action: Action)
        requires
            event_views(old(events)@) == Seq::<EventView>::empty(),
        ensures
            turn_of(final(self)@, final(events)@, action) == operation_ended(
                old(self)@,
                result_view(result),
                now,
            ),
    {
        match self.stage {
            Stage::LoginChallenge { .. } | Stage::Login | Stage::LoginPause => self.end_login(
                events,
                result,
                now,
            ),
            Stage::Primary { .. }
            | Stage::Packet { .. }
            | Stage::CyclePause { .. }
            | Stage::Resync { .. } => self.end_keepalive(events, result, now),
            _ => self.end_logout(events, result),
        }
    }

    fn on_sent(&mut self) -> (action: Action)
        ensures
            forall|events: Seq<SessionEvent>|
                event_views(events) == Seq::<EventView>::empty() ==> #[trigger] turn_of(
                    final(self)@,
                    events,
                    action,
                ) == after_send(old(self)@),
    {
        match self.stage {
            Stage::LogoutPing { nonce } => self.pause_at(
                Stage::LogoutPause { nonce },
                Action::Sleep { ms: auth::LOGOUT_PAUSE_MS, interruptible: false },
            ),
            _ => {
                self.awaiting = Awaiting::Reply;
                Action::Receive
            },
        }
    }

    fn on_challenge(
        &mut self,
        events: &mut Vec<SessionEvent>,
        exchange: ChallengeExchange,
        source: SocketAddrV4,
        datagram: &Vec<u8>,
        now: Moment,
    ) -> (action: Action)
        requires
            event_views(old(events)@) == Seq::<EventView>::empty(),
            old(self)@.stage is LoginChallenge || (old(self)@.stage is LogoutChallenge && old(
                self,
            )@.server is Some),
            exchange == pending_exchange(old(self)@),
        ensures
            turn_of(final(self)@, final(events)@, action) == (if concerns(
                old(self)@,
                source,
                datagram@,
            ) {
                after_reply(old(self)@, source, datagram@, now)
            } else {
                TurnView {
                    model: old(self)@,
                    events: Seq::empty(),
                    action: ActionView::KeepReceiving,
                }
            }),
    {
        let logout = matches!(self.stage, Stage::LogoutChallenge { .. });
        match exchange.receive(source, datagram) {
            ExchangeStep::Ignore => Action::KeepReceiving,
            ExchangeStep::Rejected => {
                if logout {
                    self.end_logout(
                        events,
                        Err(SessionError::Challenge("服务器拒绝了下线挑战请求")),
                    )
                } else {
                    self.end_login(
                        events,
                        Err(SessionError::Challenge("服务器拒绝了挑战请求")),
                        now,
                    )
                }
            },
            ExchangeStep::Accepted(receipt) => {
                if logout {
                    self.answer_logout(events, receipt.challenge)
                } else {
                    self.accept_challenge(events, source, receipt.challenge, now)
                }
            },
        }
    }

    fn on_datagram(
        &mut self,
        events: &mut Vec<SessionEvent>,
        source: SocketAddrV4,
        datagram: &Vec<u8>,
        now: Moment,
    ) -> (action: Action)
        requires
            event_views(old(events)@) == Seq::<EventView>::empty(),
        ensures
            turn_of(final(self)@, final(events)@, action) == (if concerns(
                old(self)@,
                source,
                datagram@,
            ) {
                after_reply(old(self)@, source, datagram@, now)
            } else {
                TurnView {
                    model: old(self)@,
                    events: Seq::empty(),
                    action: ActionView::KeepReceiving,
                }
            }),
    {
        match self.stage {
            Stage::LoginChallenge { nonce } => {
                let exchange = auth::exchange_challenge(
                    SocketAddrV4 {
                        ip: self.retry.current_server(),
                        port: self.config.server_port,
                    },
                    self.sequence,
                    nonce,
                    CHALLENGE_CLIENT_OPTION,
                );
                return self.on_challenge(events, exchange, source, datagram, now);
            },
            Stage::LogoutChallenge { nonce } => {
                match self.server {
                    None => {
                        return Action::KeepReceiving;
                    },
                    Some(server) => {
                        let exchange = auth::exchange_logout_challenge(
                            server,
                            self.sequence,
                            nonce,
                            CHALLENGE_CLIENT_OPTION,
                        );
                        return self.on_challenge(events, exchange, source, datagram, now);
                    },
                }
            },
            _ => {},
        }
        match self.server {
            None => {
                return Action::KeepReceiving;
            },
            Some(server) => {
                if server != source {
                    return Action::KeepReceiving;
                }
            },
        }
        match self.stage {
            Stage::Login => self.login_reply(events, datagram, now),
            Stage::Primary { round, seconds, left } => {
                if datagram.len() > 0 && datagram[0] == 0x07 {
                    self.adopt_keepalive_version(events, datagram);
                    self.after_primary(events, round, now)
                } else {
                    self.send_primary_keepalive(events, round, seconds, left, now)
                }
            },
            Stage::Packet { round, form, sequence, first, left } => self.packet_reply(
                events,
                round,
                form,
                sequence,
                first,
                left,
                datagram,
                now,
            ),
            _ => self.close_logout(events, Some(datagram)),
        }
    }

    fn on_silence(&mut self, events: &mut Vec<SessionEvent>, now: Moment) -> (action: Action)
        requires
            event_views(old(events)@) == Seq::<EventView>::empty(),
        ensures
            turn_of(final(self)@, final(events)@, action) == after_silence(old(self)@, now),
    {
        match self.stage {
            Stage::LoginChallenge { .. } => self.challenge_silence(events, now),
            Stage::Login => {
                emit_note(events, "登录 响应超时".to_string());
                self.retry_or_fail(events, now)
            },
            Stage::Primary { round, seconds, left } => self.send_primary_keepalive(
                events,
                round,
                seconds,
                left,
                now,
            ),
            Stage::Packet { round, form, sequence, first, left } => self.packet_silence(
                events,
                round,
                form,
                sequence,
                first,
                left,
                None,
                now,
            ),
            Stage::LogoutChallenge { .. } => self.end_logout(
                events,
                Err(SessionError::NoResponse("下线挑战")),
            ),
            _ => self.close_logout(events, None),
        }
    }

    fn on_receive_failure(
        &mut self,
        events: &mut Vec<SessionEvent>,
        kind: TransportErrorKind,
        now: Moment,
    ) -> (action: Action)
        requires
            event_views(old(events)@) == Seq::<EventView>::empty(),
        ensures
            turn_of(final(self)@, final(events)@, action) == after_receive_failure(
                old(self)@,
                kind,
                now,
            ),
    {
        match self.stage {
            Stage::Packet { round, form, sequence, first, left } => self.packet_silence(
                events,
                round,
                form,
                sequence,
                first,
                left,
                Some(kind),
                now,
            ),
            _ => self.end_operation(events, Err(SessionError::Transport(kind)), now),
        }
    }

    fn on_wake(&mut self, events: &mut Vec<SessionEvent>, completed: bool, now: Moment) -> (action:
        Action)
        requires
            event_views(old(events)@) == Seq::<EventView>::empty(),
        ensures
            turn_of(final(self)@, final(events)@, action) == after_pause(
                old(self)@,
                completed,
                now,
            ),
    {
        match self.stage {
            Stage::LoginPause => {
                if completed {
                    self.begin_login(events, now)
                } else {
                    self.end_login(events, Err(SessionError::Stopped), now)
                }
            },
            Stage::CyclePause { round } => {
                if completed {
                    self.begin_round(events, round, now)
                } else {
                    self.end_keepalive(events, Ok(()), now)
                }
            },
            Stage::Resync { restarts } => {
                if completed {
                    self.keepalive_session(events, restarts, now)
                } else {
                    self.end_keepalive(events, Ok(()), now)
                }
            },
            Stage::LogoutPause { nonce } => self.challenge_logout(events, nonce),
            _ => self.end_operation(events, Err(SessionError::Stopped), now),
        }
    }

    /// Whether an input is what the session waits for.
    pub fn expects(&self, input: &SessionInput) -> (yes: bool)
        ensures
            yes == expected(self@, *input),
    {
        match input {
            SessionInput::Sent | SessionInput::SendFailed(_) => matches!(
                self.awaiting,
                Awaiting::Send
            ),
            SessionInput::Received { .. }
            | SessionInput::TimedOut
            | SessionInput::ReceiveFailed(_) => matches!(self.awaiting, Awaiting::Reply),
            SessionInput::Slept { .. } => matches!(self.awaiting, Awaiting::Wake),
        }
    }

    /// Takes in what happened and answers with what to report and what to do next.
    pub fn step(&mut self, input: SessionInput, now: Moment) -> (turn: Turn)
        requires
            expected(old(self)@, input),
        ensures
            turn_of(final(self)@, turn.events@, turn.action) == next(old(self)@, input, now),
    {
        let mut events = no_events();
        let action = match input {
            SessionInput::Sent => self.on_sent(),
            SessionInput::SendFailed(kind) => self.end_operation(
                &mut events,
                Err(SessionError::Transport(kind)),
                now,
            ),
            SessionInput::Received { source, datagram } => self.on_datagram(
                &mut events,
                source,
                &datagram,
                now,
            ),
            SessionInput::TimedOut => self.on_silence(&mut events, now),
            SessionInput::ReceiveFailed(kind) => self.on_receive_failure(&mut events, kind, now),
            SessionInput::Slept { completed } => self.on_wake(&mut events, completed, now),
        };
        Turn { events, action }
    }

    /// Begins a login: challenge, login frame, answer, and the retries of both.
    pub fn login(&mut self, now: Moment) -> (turn: Turn)
        ensures
            turn_of(final(self)@, turn.events@, turn.action) == login_begun(
                (SessionModel { running: false, ..old(self)@ }),
                Seq::empty(),
                now,
            ),
    {
        self.running = false;
        let mut events = no_events();
        let action = self.begin_login(&mut events, now);
        Turn { events, action }
    }

    /// Begins the keep-alive, which goes on until the session is stopped or the server goes
    /// quiet. A quiet server makes it start over, a bounded number of times.
    pub fn run_keepalive(&mut self, now: Moment) -> (turn: Turn)
        ensures
            turn_of(final(self)@, turn.events@, turn.action) == keepalive_begun(
                (SessionModel { running: false, ..old(self)@ }),
                Seq::empty(),
                now,
            ),
    {
        self.running = false;
        let mut events = no_events();
        let action = self.begin_keepalive(&mut events, now);
        Turn { events, action }
    }

    /// Begins a logout: a ping, a pause, a fresh challenge, then the logout frame, which is never
    /// sent twice.
    pub fn logout(&mut self, now: Moment) -> (turn: Turn)
        ensures
            turn_of(final(self)@, turn.events@, turn.action) == logout_begun(
                (SessionModel { running: false, ..old(self)@ }),
                Seq::empty(),
                now,
            ),
    {
        self.running = false;
        let mut events = no_events();
        let action = self.begin_logout(&mut events, now);
        Turn { events, action }
    }

    /// Begins a run: login, keep-alive until stopped, then a best-effort logout.
    pub fn run(&mut self, now: Moment) -> (turn: Turn)
        ensures
            turn_of(final(self)@, turn.events@, turn.action) == login_begun(
                (SessionModel { running: true, ..old(self)@ }),
                Seq::empty(),
                now,
            ),
    {
        self.running = true;
        let mut events = no_events();
        let action = self.begin_login(&mut events, now);
        Turn { events, action }
    }
}

fn copy_servers(servers: &Vec<Ipv4Addr>) -> (copy: Vec<Ipv4Addr>)
    ensures
        copy@ == servers@,
{
    let mut copy: Vec<Ipv4Addr> = Vec::new();
    let mut i: usize = 0;
    while i < servers.len()
        invariant
            i <= servers@.len(),
            copy@ == servers@.take(i as int),
        decreases servers@.len() - i,
    {
        copy.push(servers[i]);
        assert(servers@.take(i + 1) =~= servers@.take(i as int).push(servers@[i as int]));
        i += 1;
    }
    assert(servers@.take(servers@.len() as int) =~= servers@);
    copy
}

fn hex_of_byte(byte: u8) -> (digits: String)
    ensures
        digits@ == text::hex_byte(byte),
{
    let one = [byte];
    let digits = text::hex_text(&one);
    proof {
        assert(one@ =~= seq![byte]);
        assert(one@.drop_last() =~= Seq::<u8>::empty());
        reveal_with_fuel(text::hex, 2);
        assert(text::hex(one@) =~= text::hex_byte(byte));
    }
    digits
}

/// The word for a change of the routing table.
pub open spec fn action_word(action: RouteAction) -> Seq<char> {
    match action {
        RouteAction::Add => "添加"@,
        RouteAction::Delete => "删除"@,
    }
}

/// A plan in words: server, gateway, interface.
pub open spec fn plan_words(plan: route::RoutePlan) -> Seq<char> {
    net::ipv4_text(plan.server) + " 经由 "@ + net::ipv4_text(plan.gateway) + " IF "@
        + text::decimal(plan.interface_index as nat)
}

/// What a pass over the servers tells the user of one of them.
pub open spec fn report_words(report: RouteReport, applying: bool) -> Seq<char> {
    match report.result {
        Ok(()) => if applying {
            action_word(report.action) + "认证服务器路由 "@ + plan_words(report.plan)
        } else {
            "认证服务器路由（试运行，未修改路由表）"@ + plan_words(report.plan)
        },
        Err(error) => action_word(report.action) + "认证服务器路由 "@ + net::ipv4_text(
            report.plan.server,
        ) + " 失败："@ + route::error_name(error),
    }
}

/// Why a session does not start after a pass over its servers, if it does not: the caller asked
/// for managed routes and a server ended up without one.
pub open spec fn route_refusal(config: SessionConfig, outcome: OutcomeView) -> Option<RouteError> {
    if config.auth_route is Manage && config.servers@.len() > 0 && !outcome.satisfied(
        config.servers@.len(),
    ) {
        Some(
            if outcome.failed.len() > 0 {
                outcome.failed[0].1
            } else {
                RouteError::Refused(0)
            },
        )
    } else {
        None
    }
}

/// What the removal of a route tells the user.
pub open spec fn removal_words(
    installed: InstalledRoute,
    result: Result<(), RouteError>,
) -> Seq<char> {
    match result {
        Ok(()) => "已移除认证服务器路由 "@ + net::ipv4_text(installed.plan.server),
        Err(error) => "移除认证服务器路由 "@ + net::ipv4_text(installed.plan.server) + " 失败："@
            + route::error_name(error),
    }
}

fn plan_text(plan: &route::RoutePlan) -> (words: String)
    ensures
        words@ == plan_words(*plan),
{
    let mut words = net::ipv4_string(plan.server);
    words.append(" 经由 ");
    words.append(&net::ipv4_string(plan.gateway));
    words.append(" IF ");
    words.append(&text::decimal_text(plan.interface_index as u64));
    words
}

/// What a pass over the servers tells the user of one of them.
pub fn report_text(report: &RouteReport, applying: bool) -> (words: String)
    ensures
        words@ == report_words(*report, applying),
{
    let verb = match report.action {
        RouteAction::Add => "添加",
        RouteAction::Delete => "删除",
    };
    match report.result {
        Ok(()) => {
            if applying {
                let mut words = verb.to_string();
                words.append("认证服务器路由 ");
                words.append(&plan_text(&report.plan));
                words
            } else {
                let mut words = "认证服务器路由（试运行，未修改路由表）".to_string();
                words.append(&plan_text(&report.plan));
                words
            }
        },
        Err(error) => {
            let mut words = verb.to_string();
            words.append("认证服务器路由 ");
            words.append(&net::ipv4_string(report.plan.server));
            words.append(" 失败：");
            words.append(&error.name());
            words
        },
    }
}

/// What the removal of a route tells the user.
pub fn restore_auth_route(installed: &InstalledRoute, result: Result<(), RouteError>) -> (words:
    String)
    ensures
        words@ == removal_words(*installed, result),
{
    match result {
        Ok(()) => {
            let mut words = "已移除认证服务器路由 ".to_string();
            words.append(&net::ipv4_string(installed.plan.server));
            words
        },
        Err(error) => {
            let mut words = "移除认证服务器路由 ".to_string();
            words.append(&net::ipv4_string(installed.plan.server));
            words.append(" 失败：");
            words.append(&error.name());
            words
        },
    }
}

impl SessionConfig {
    /// Starts the pass that gives the session's servers their host routes.
    pub fn install_auth_route(&self) -> (installer: RouteInstaller)
        ensures
            installer@ == route::InstallerView::start(self.servers@, self.auth_route),
            installer@.valid(),
    {
        route::install_for(copy_servers(&self.servers), self.auth_route)
    }

    /// Whether the session may start after that pass. Without a routable server it fails at once
    /// instead of waiting out a timeout.
    pub fn check_routes(&self, outcome: &RouteOutcome) -> (result: Result<(), SessionError>)
        ensures
            match result {
                Ok(()) => route_refusal(*self, outcome@) is None,
                Err(error) => route_refusal(*self, outcome@) matches Some(refusal) && error@
                    == ErrorView::Route(refusal),
            },
    {
        if self.auth_route.applies() && self.servers.len() > 0 && !outcome.is_satisfied(
            self.servers.len(),
        ) {
            let error = if outcome.failed.len() > 0 {
                outcome.failed[0].1
            } else {
                RouteError::Refused(0)
            };
            return Err(SessionError::Route(error));
        }
        Ok(())
    }
}

/// A run whose routes are in place: what it installed, how much of that is removed again, and how
/// the session ended, once it has.
pub struct RouteGuard {
    installed: Vec<InstalledRoute>,
    removed: usize,
    result: Option<Result<(), SessionError>>,
}

/// What a guarded run asks its caller to do next.
#[derive(Debug, Clone, Copy, PartialEq, Eq)]
pub enum GuardRequest {
    /// Run the session, then answer with `run_ended`.
    Run,
    /// Remove this route, then answer with `route_removed`.
    Remove(InstalledRoute),
    /// Nothing is left to be done but to `close` the run.
    Done,
}

/// The mathematical content of a `RouteGuard`.
pub struct GuardView {
    pub installed: Seq<InstalledRoute>,
    pub removed: nat,
    pub result: Option<Result<(), ErrorView>>,
}

impl GuardView {
    /// The pass over the routes is over, and the session may start.
    pub open spec fn opened(outcome: OutcomeView) -> GuardView {
        GuardView { installed: outcome.installed, removed: 0, result: None }
    }

    /// The session first, then one route after the other.
    pub open spec fn request(self) -> GuardRequest {
        if self.result is None {
            GuardRequest::Run
        } else if self.removed < self.installed.len() {
            GuardRequest::Remove(self.installed[self.removed as int])
        } else {
            GuardRequest::Done
        }
    }

    pub open spec fn run_ended(self, result: Result<(), ErrorView>) -> GuardView {
        GuardView { result: Some(result), ..self }
    }

    /// A route was asked to be removed. It counts whether it could be or not.
    pub open spec fn route_removed(self) -> GuardView {
        GuardView { removed: self.removed + 1, ..self }
    }

    /// The routes that are asked to be removed from here on, in order.
    pub open spec fn removals(self) -> Seq<InstalledRoute>
        decreases self.installed.len() - self.removed,
    {
        match self.request() {
            GuardRequest::Remove(route) => seq![route] + self.route_removed().removals(),
            _ => Seq::empty(),
        }
    }

    /// What becomes of the run when everything it asks for is done.
    pub open spec fn settled(self) -> GuardView
        decreases self.installed.len() - self.removed,
    {
        match self.request() {
            GuardRequest::Remove(route) => self.route_removed().settled(),
            _ => self,
        }
    }
}

impl View for RouteGuard {
    type V = GuardView;

    closed spec fn view(&self) -> GuardView {
        GuardView {
            installed: self.installed@,
            removed: self.removed as nat,
            result: match self.result {
                Some(result) => Some(result_view(result)),
                None => None,
            },
        }
    }
}

impl SessionConfig {
    /// Opens a run after the pass over its servers' routes, or ends it at once where a route that
    /// was asked for is missing.
    pub fn open_run(&self, outcome: RouteOutcome) -> (result: Result<RouteGuard, SessionError>)
        ensures
            match result {
                Ok(guard) => route_refusal(*self, outcome@) is None && guard@ == GuardView::opened(
                    outcome@,
                ),
                Err(error) => route_refusal(*self, outcome@) matches Some(refusal) && error@
                    == ErrorView::Route(refusal),
            },
    {
        match self.check_routes(&outcome) {
            Ok(()) => Ok(RouteGuard { installed: outcome.installed, removed: 0, result: None }),
            Err(error) => Err(error),
        }
    }
}

impl RouteGuard {
    /// What is to be done next.
    pub fn request(&self) -> (request: GuardRequest)
        ensures
            request == self@.request(),
    {
        if self.result.is_none() {
            GuardRequest::Run
        } else if self.removed < self.installed.len() {
            GuardRequest::Remove(self.installed[self.removed])
        } else {
            GuardRequest::Done
        }
    }

    /// The session is over, however it ended.
    pub fn run_ended(&mut self, result: Result<(), SessionError>)
        requires
            old(self)@.request() is Run,
        ensures
            final(self)@ == old(self)@.run_ended(result_view(result)),
    {
        self.result = Some(result);
    }

    /// A route was asked to be removed; what that tells the user.
    pub fn route_removed(&mut self, result: Result<(), RouteError>) -> (words: String)
        requires
            old(self)@.request() is Remove,
        ensures
            final(self)@ == old(self)@.route_removed(),
            words@ == removal_words(old(self)@.request()->Remove_0, result),
    {
        let words = restore_auth_route(&self.installed[self.removed], result);
        assert(self.removed < self.installed.len());
        self.removed = self.removed + 1;
        words
    }

    /// How the session ended, now that every route is removed.
    pub fn close(self) -> (result: Result<(), SessionError>)
        requires
            self@.request() is Done,
        ensures
            self@.result == Some(result_view(result)),
    {
        match self.result {
            Some(result) => result,
            None => Ok(()),
        }
    }
}

/// A run leaves the routing table as it was found: nothing is removed before the session is over,
/// then exactly the routes that the pass installed are, in order, however the session ended and
/// whether a removal succeeds or not; and how the session ended is how the run ends.
pub proof fn law_exactly_the_installed_routes_are_removed(
    outcome: OutcomeView,
    result: Result<(), ErrorView>,
)
    ensures
        ({
            let running = GuardView::opened(outcome);
            let over = running.run_ended(result);
            &&& running.request() is Run
            &&& running.removals() == Seq::<InstalledRoute>::empty()
            &&& over.removals() == outcome.installed
            &&& over.settled().request() is Done
            &&& over.settled().result == Some(result)
        }),
{
    let over = GuardView::opened(outcome).run_ended(result);
    lemma_removals(over);
    assert(over.installed.skip(0) =~= over.installed);
}

proof fn lemma_removals(guard: GuardView)
    requires
        guard.result is Some,
        guard.removed <= guard.installed.len(),
    ensures
        guard.removals() == guard.installed.skip(guard.removed as int),
        guard.settled().request() is Done,
        guard.settled().result == guard.result,
    decreases guard.installed.len() - guard.removed,
{
    let rest = guard.installed.skip(guard.removed as int);
    if guard.removed < guard.installed.len() {
        lemma_removals(guard.route_removed());
        assert(rest =~= seq![rest[0]] + rest.skip(1));
        assert(rest.skip(1) =~= guard.installed.skip(guard.removed as int + 1));
    } else {
        assert(rest =~= Seq::empty());
    }
}

impl LoginSession {
    /// Whether discarding what is left in the socket ends with a datagram: an empty one of the
    /// session's server. Any other is discarded, and the next is looked at.
    pub fn ends_discarding(&self, source: SocketAddrV4, length: usize) -> (ends: bool)
        ensures
            ends == (self@.server == Some(source) && length == 0),
    {
        match self.server {
            Some(server) => server == source && length == 0,
            None => false,
        }
    }
}

} // verus!
