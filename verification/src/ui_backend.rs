//! What the window's buttons, the timer and a running session do to the client as a whole.
//!
//! Every function takes in what happened and answers with effects: what to show, what to write to
//! the log, and what to do next. Sockets, threads and the window itself belong to the application.

use vstd::prelude::*;

use crate::adapter::{self, AdapterInfo, AdapterView};
use crate::config::{self, ClientConfig, ConfigView};
use crate::net::{self, Ipv4Addr};
use crate::panel::{self, ConnectionState, EditorFields};
use crate::preferences::Preferences;
use crate::reconnect::{self, ReconnectBackoff};
use crate::session::{ErrorView, EventView, SessionConfig, SessionError, SessionEvent, SessionPhase};
use crate::static_ipv4::{self, Configuration, Setting};
use crate::text;

verus! {

/// How long the window stays visible after a login, so that the success is seen.
pub const HIDE_AFTER_LOGIN_MS: u64 = 3000;

/// How long an automatic login waits for an adapter.
pub const AUTO_LOGIN_WAIT_MS: u64 = 90_000;

/// A login that waits for an adapter.
#[derive(Debug, Clone, PartialEq, Eq)]
pub struct PendingLogin {
    pub username: String,
    pub password: String,
    pub auto_reconnect: bool,
    pub deadline_ms: u64,
}

/// What the window, the timer and the session share.
#[derive(Debug, Clone, PartialEq, Eq)]
pub struct Shared {
    /// Whether a session runs.
    pub active: bool,
    pub connected_since: Option<u64>,
    pub pending_auto: Option<PendingLogin>,
    /// When the window tucks itself away after a login.
    pub hide_at: Option<u64>,
    pub minimize_to_tray: bool,
    pub quitting: bool,
    pub probing: bool,
    pub edit_adapter: Option<AdapterInfo>,
    pub network_busy: bool,
}

/// The mathematical content of a `PendingLogin`.
pub struct PendingView {
    pub username: Seq<char>,
    pub password: Seq<char>,
    pub auto_reconnect: bool,
    pub deadline_ms: u64,
}

/// The mathematical content of `Shared`.
pub struct SharedView {
    pub active: bool,
    pub connected_since: Option<u64>,
    pub pending_auto: Option<PendingView>,
    pub hide_at: Option<u64>,
    pub minimize_to_tray: bool,
    pub quitting: bool,
    pub probing: bool,
    pub edit_adapter: Option<AdapterView>,
    pub network_busy: bool,
}

impl View for PendingLogin {
    type V = PendingView;

    open spec fn view(&self) -> PendingView {
        PendingView {
            username: self.username@,
            password: self.password@,
            auto_reconnect: self.auto_reconnect,
            deadline_ms: self.deadline_ms,
        }
    }
}

impl View for Shared {
    type V = SharedView;

    open spec fn view(&self) -> SharedView {
        SharedView {
            active: self.active,
            connected_since: self.connected_since,
            pending_auto: match self.pending_auto {
                Some(login) => Some(login@),
                None => None,
            },
            hide_at: self.hide_at,
            minimize_to_tray: self.minimize_to_tray,
            quitting: self.quitting,
            probing: self.probing,
            edit_adapter: match self.edit_adapter {
                Some(found) => Some(found@),
                None => None,
            },
            network_busy: self.network_busy,
        }
    }
}

/// What has to happen outside.
#[derive(Debug, Clone, PartialEq, Eq)]
pub enum Effect {
    /// Show a status line.
    Status(String),
    /// Show a connection state with a status line.
    Connection { state: ConnectionState, detail: String },
    /// Show a text on the tray icon.
    Tooltip(String),
    /// Show how long the session has been online.
    Duration(String),
    /// Write a line to the log.
    Record(String),
    HideWindow,
    /// Tell the running session to stop.
    RequestStop,
    /// Look for an adapter and report whether there is one.
    LookForAdapter,
    /// Start a session.
    Login { username: String, password: String, auto_reconnect: bool },
    /// Show whether a network change is under way.
    NetworkBusy(bool),
    /// Show a message in the network editor.
    NetworkMessage(String),
    /// Show the network editor.
    OpenEditor(EditorFields),
    /// Change the address settings of an adapter and report what came of it.
    Apply { config: Configuration, adapter_name: String },
    /// Show that probes are under way, or over.
    ProbeBusy(bool),
    /// End the program.
    Quit,
}

/// What an effect says.
pub enum EffectView {
    Status(Seq<char>),
    Connection { state: ConnectionState, detail: Seq<char> },
    Tooltip(Seq<char>),
    Duration(Seq<char>),
    Record(Seq<char>),
    HideWindow,
    RequestStop,
    LookForAdapter,
    Login { username: Seq<char>, password: Seq<char>, auto_reconnect: bool },
    NetworkBusy(bool),
    NetworkMessage(Seq<char>),
    OpenEditor {
        adapter_name: Seq<char>,
        ip: Seq<char>,
        mask: Seq<char>,
        gateway: Seq<char>,
        dns: Seq<char>,
    },
    Apply { config: Setting, adapter_name: Seq<char> },
    ProbeBusy(bool),
    Quit,
}

impl View for Effect {
    type V = EffectView;

    open spec fn view(&self) -> EffectView {
        match *self {
            Effect::Status(words) => EffectView::Status(words@),
            Effect::Connection { state, detail } => EffectView::Connection {
                state,
                detail: detail@,
            },
            Effect::Tooltip(words) => EffectView::Tooltip(words@),
            Effect::Duration(words) => EffectView::Duration(words@),
            Effect::Record(words) => EffectView::Record(words@),
            Effect::HideWindow => EffectView::HideWindow,
            Effect::RequestStop => EffectView::RequestStop,
            Effect::LookForAdapter => EffectView::LookForAdapter,
            Effect::Login { username, password, auto_reconnect } => EffectView::Login {
                username: username@,
                password: password@,
                auto_reconnect,
            },
            Effect::NetworkBusy(busy) => EffectView::NetworkBusy(busy),
            Effect::NetworkMessage(words) => EffectView::NetworkMessage(words@),
            Effect::OpenEditor(fields) => EffectView::OpenEditor {
                adapter_name: fields.adapter_name@,
                ip: fields.ip@,
                mask: fields.mask@,
                gateway: fields.gateway@,
                dns: fields.dns@,
            },
            Effect::Apply { config, adapter_name } => EffectView::Apply {
                config: config@,
                adapter_name: adapter_name@,
            },
            Effect::ProbeBusy(busy) => EffectView::ProbeBusy(busy),
            Effect::Quit => EffectView::Quit,
        }
    }
}

/// What effects say.
pub open spec fn effect_views(effects: Seq<Effect>) -> Seq<EffectView> {
    effects.map_values(|effect: Effect| effect@)
}

/// A state and the effects that led to it.
pub struct Reaction {
    pub state: SharedView,
    pub effects: Seq<EffectView>,
}

/// What a function left behind.
pub open spec fn reaction_of(state: SharedView, effects: Seq<Effect>) -> Reaction {
    Reaction { state, effects: effect_views(effects) }
}

/// A moment, `wait_ms` after another.
pub open spec fn later(now_ms: u64, wait_ms: u64) -> u64 {
    if now_ms + wait_ms <= u64::MAX {
        (now_ms + wait_ms) as u64
    } else {
        u64::MAX
    }
}

/// How many whole seconds lie between two moments.
pub open spec fn seconds_between(since_ms: u64, now_ms: u64) -> nat {
    if since_ms <= now_ms {
        ((now_ms - since_ms) / 1000) as nat
    } else {
        0
    }
}

/// The states that a client can be in: the window only plans to hide where the option says so.
pub open spec fn consistent(state: SharedView) -> bool {
    state.hide_at is Some ==> state.minimize_to_tray
}

/// A client that has just started.
pub open spec fn fresh() -> SharedView {
    SharedView {
        active: false,
        connected_since: None,
        pending_auto: None,
        hide_at: None,
        minimize_to_tray: true,
        quitting: false,
        probing: false,
        edit_adapter: None,
        network_busy: false,
    }
}

/// What is said of an adapter that has not come yet.
pub open spec fn still_waiting() -> EffectView {
    EffectView::Connection {
        state: ConnectionState::WaitingForNetwork,
        detail: "自动登录正在等待可用网卡…"@,
    }
}

/// What one second brings.
pub open spec fn ticked(state: SharedView, now_ms: u64, visible: bool) -> Reaction {
    let shown = match state.connected_since {
        Some(since) => if visible {
            seq![EffectView::Duration(panel::duration_text(seconds_between(since, now_ms)))]
        } else {
            Seq::empty()
        },
        None => Seq::empty(),
    };
    if state.quitting {
        Reaction { state, effects: Seq::empty() }
    } else if state.hide_at matches Some(due) && now_ms >= due {
        Reaction {
            state: SharedView { hide_at: None, ..state },
            effects: shown + seq![
                EffectView::Tooltip(panel::tooltip_of("登录成功，已在托盘运行"@)),
                EffectView::HideWindow,
            ],
        }
    } else {
        match state.pending_auto {
            None => Reaction { state, effects: shown },
            Some(login) => if now_ms > login.deadline_ms {
                Reaction {
                    state: SharedView { pending_auto: None, ..state },
                    effects: shown + seq![
                        EffectView::Connection {
                            state: ConnectionState::Disconnected,
                            detail: "自动登录等待网卡超时，请连接网络后手动连接"@,
                        },
                    ],
                }
            } else {
                Reaction { state, effects: shown + seq![EffectView::LookForAdapter] }
            },
        }
    }
}

/// What it brings to have looked for an adapter.
pub open spec fn looked(state: SharedView, found: bool) -> Reaction {
    match state.pending_auto {
        None => Reaction { state, effects: Seq::empty() },
        Some(login) => if found {
            Reaction {
                state: SharedView { pending_auto: None, ..state },
                effects: seq![
                    EffectView::Login {
                        username: login.username,
                        password: login.password,
                        auto_reconnect: login.auto_reconnect,
                    },
                ],
            }
        } else {
            Reaction { state, effects: seq![still_waiting()] }
        },
    }
}

/// What a request to quit brings: an orderly end, after the network change or the logout that is
/// under way.
pub open spec fn quit_requested(state: SharedView) -> Reaction {
    let state = SharedView { quitting: true, pending_auto: None, hide_at: None, ..state };
    let noted = EffectView::Record("请求退出"@);
    if state.network_busy {
        Reaction { state, effects: seq![noted, EffectView::Status("等待网络设置操作完成后退出…"@)] }
    } else if state.active {
        Reaction {
            state,
            effects: seq![
                noted,
                EffectView::RequestStop,
                EffectView::Connection {
                    state: ConnectionState::Disconnecting,
                    detail: "正在下线，完成后退出…"@,
                },
            ],
        }
    } else {
        Reaction { state, effects: seq![noted, EffectView::Quit] }
    }
}

/// What a request to disconnect brings.
pub open spec fn stop_requested(state: SharedView) -> Reaction {
    if state.pending_auto is Some {
        Reaction {
            state: SharedView { pending_auto: None, ..state },
            effects: seq![
                EffectView::Connection {
                    state: ConnectionState::Disconnected,
                    detail: "已取消自动登录"@,
                },
            ],
        }
    } else if state.active {
        Reaction {
            state,
            effects: seq![
                EffectView::RequestStop,
                EffectView::Connection {
                    state: ConnectionState::Disconnecting,
                    detail: "正在下线…"@,
                },
            ],
        }
    } else {
        Reaction { state, effects: seq![EffectView::Status("当前没有进行中的连接"@)] }
    }
}

/// What a request for probes brings: one round at a time.
pub open spec fn probe_requested(state: SharedView) -> Reaction {
    if state.probing || state.quitting {
        Reaction { state, effects: Seq::empty() }
    } else {
        Reaction {
            state: SharedView { probing: true, ..state },
            effects: seq![EffectView::ProbeBusy(true)],
        }
    }
}

/// Whether the address settings can be opened or changed now.
pub open spec fn network_free(state: SharedView) -> bool {
    !state.active && !state.quitting && !state.network_busy
}

/// What the network editor starts with.
pub open spec fn editor_of(found: AdapterView) -> EffectView {
    EffectView::OpenEditor {
        adapter_name: found.friendly_name,
        ip: net::ipv4_text(found.ipv4),
        mask: match found.subnet_mask {
            Some(mask) => net::ipv4_text(mask),
            None => Seq::empty(),
        },
        gateway: net::first_ipv4_text(found.gateways),
        dns: net::first_ipv4_text(found.dns),
    }
}

/// What a request for the network editor brings, given the adapter that would be edited.
pub open spec fn editor_requested(state: SharedView, found: Option<AdapterView>) -> Reaction {
    if !network_free(state) {
        Reaction { state, effects: Seq::empty() }
    } else {
        match found {
            None => Reaction {
                state,
                effects: seq![EffectView::Status("未找到可配置的物理网卡"@)],
            },
            Some(found) => Reaction {
                state: SharedView { pending_auto: None, edit_adapter: Some(found), ..state },
                effects: seq![
                    editor_of(found),
                    EffectView::NetworkMessage(
                        "应用时会请求管理员权限，并可能短暂中断此网卡的连接。"@,
                    ),
                ],
            },
        }
    }
}

/// Whether an adapter is still among those that are there.
pub open spec fn among(adapters: Seq<AdapterInfo>, chosen: AdapterView) -> bool {
    exists|i: int|
        0 <= i < adapters.len() && adapter::same_adapter(#[trigger] adapters[i]@, chosen)
}

/// What a request to change the address settings brings: nothing is changed on an adapter that is
/// no longer there.
pub open spec fn change_requested(
    state: SharedView,
    parsed: Result<Setting, Seq<char>>,
    adapters: Seq<AdapterInfo>,
) -> Reaction {
    match parsed {
        Err(message) => Reaction { state, effects: seq![EffectView::NetworkMessage(message)] },
        Ok(config) => if !network_free(state) {
            Reaction { state, effects: Seq::empty() }
        } else {
            match state.edit_adapter {
                None => Reaction { state, effects: Seq::empty() },
                Some(found) => if !among(adapters, found) {
                    Reaction {
                        state,
                        effects: seq![
                            EffectView::NetworkMessage("网卡已变化，请返回后重新打开网络设置"@),
                        ],
                    }
                } else {
                    Reaction {
                        state: SharedView { network_busy: true, ..state },
                        effects: seq![
                            EffectView::NetworkBusy(true),
                            EffectView::NetworkMessage("等待管理员授权与应用结果…"@),
                            EffectView::Apply { config, adapter_name: found.friendly_name },
                        ],
                    }
                },
            }
        },
    }
}

/// What the end of a change of the address settings brings.
pub open spec fn change_finished(state: SharedView, result: Result<(), Seq<char>>) -> Reaction {
    let told = seq![
        EffectView::NetworkBusy(false),
        EffectView::NetworkMessage(
            match result {
                Ok(()) => "IPv4 设置已应用，可返回主界面连接"@,
                Err(message) => message,
            },
        ),
    ];
    Reaction {
        state: SharedView { network_busy: false, ..state },
        effects: if state.quitting {
            told + seq![EffectView::Quit]
        } else {
            told
        },
    }
}

/// What closing the window brings.
pub open spec fn close_requested(state: SharedView, minimize: bool) -> Reaction {
    Reaction {
        state: SharedView { minimize_to_tray: minimize, hide_at: None, ..state },
        effects: if minimize {
            seq![
                EffectView::Record("关闭窗口：按设置最小化到托盘"@),
                EffectView::Tooltip(panel::tooltip_of("已最小化到托盘"@)),
                EffectView::HideWindow,
            ]
        } else {
            seq![EffectView::Record("关闭窗口：按设置直接退出"@)]
        },
    }
}

/// What the option to close to the tray brings when it is saved.
pub open spec fn option_saved(state: SharedView, minimize: bool) -> SharedView {
    SharedView {
        minimize_to_tray: minimize,
        hide_at: if minimize {
            state.hide_at
        } else {
            None
        },
        ..state
    }
}

/// What a report of the session brings.
pub open spec fn reported(state: SharedView, event: EventView, now_ms: u64) -> Reaction {
    match event {
        EventView::Phase(phase) => match phase {
            SessionPhase::Challenge => Reaction {
                state,
                effects: seq![
                    EffectView::Connection {
                        state: ConnectionState::Connecting,
                        detail: "正在请求挑战…"@,
                    },
                ],
            },
            SessionPhase::Authenticating => Reaction {
                state,
                effects: seq![
                    EffectView::Connection {
                        state: ConnectionState::Connecting,
                        detail: "正在认证…"@,
                    },
                ],
            },
            SessionPhase::Online => Reaction {
                state: SharedView {
                    connected_since: Some(now_ms),
                    hide_at: if state.minimize_to_tray {
                        Some(later(now_ms, HIDE_AFTER_LOGIN_MS))
                    } else {
                        None
                    },
                    ..state
                },
                effects: seq![
                    EffectView::Record("认证成功，进入保活"@),
                    EffectView::Connection {
                        state: ConnectionState::Connected,
                        detail: "认证成功，正在保活"@,
                    },
                    EffectView::Duration("0 秒"@),
                    EffectView::Tooltip(
                        panel::tooltip_of(
                            if state.minimize_to_tray {
                                "已连接，稍后最小化到托盘"@
                            } else {
                                "已连接，保活中"@
                            },
                        ),
                    ),
                ],
            },
            SessionPhase::KeepAlive => Reaction {
                state,
                effects: seq![
                    EffectView::Connection {
                        state: ConnectionState::Connected,
                        detail: "保活中"@,
                    },
                ],
            },
            SessionPhase::LoggedOut => Reaction {
                state,
                effects: seq![
                    EffectView::Record("已发送下线报文"@),
                    EffectView::Connection {
                        state: ConnectionState::Disconnected,
                        detail: "已下线"@,
                    },
                ],
            },
        },
        EventView::Note(note) => Reaction {
            state,
            effects: seq![EffectView::Record(note), EffectView::Status(note)],
        },
        EventView::KeepAliveCycle { sequence, tail } => {
            let words = "保活正常，序号 "@ + text::decimal(sequence as nat);
            let told = seq![EffectView::Record(words), EffectView::Status(words)];
            Reaction {
                state,
                effects: match state.connected_since {
                    Some(since) => told + seq![
                        EffectView::Duration(
                            panel::duration_text(seconds_between(since, now_ms)),
                        ),
                    ],
                    None => told,
                },
            }
        },
    }
}

/// What is said of a session that is over.
pub open spec fn ending(result: Result<(), ErrorView>, converted: Seq<u16>) -> Seq<char> {
    match result {
        Ok(()) => "已下线"@,
        Err(ErrorView::Stopped) => "已下线"@,
        Err(error) => reconnect::failure_text(error, converted),
    }
}

/// What the end of the last session brings.
pub open spec fn finished(state: SharedView, detail: Seq<char>) -> Reaction {
    let told = seq![
        EffectView::Duration("--"@),
        EffectView::Record("会话结束："@ + detail),
        EffectView::Tooltip(panel::tooltip_of(detail)),
        EffectView::Connection { state: ConnectionState::Disconnected, detail },
    ];
    Reaction {
        state: SharedView { active: false, connected_since: None, hide_at: None, ..state },
        effects: if state.quitting {
            told + seq![EffectView::Quit]
        } else {
            told
        },
    }
}

/// Whether a session that ended is followed by another.
pub open spec fn goes_on(
    result: Result<(), ErrorView>,
    auto_reconnect: bool,
    stopped: bool,
) -> bool {
    auto_reconnect && !stopped && (result matches Err(error) && reconnect::recoverable(error))
}

/// What the wait between two sessions brings.
pub open spec fn interrupted(
    state: SharedView,
    error: ErrorView,
    converted: Seq<u16>,
    delay: nat,
) -> Reaction {
    let reason = reconnect::failure_text(error, converted);
    let seconds = text::decimal(delay);
    Reaction {
        state: SharedView { connected_since: None, hide_at: None, ..state },
        effects: seq![
            EffectView::Record("连接中断："@ + reason + "；"@ + seconds + " 秒后重试"@),
            EffectView::Connection {
                state: ConnectionState::Reconnecting,
                detail: "连接中断，"@ + seconds + " 秒后重新认证…"@,
            },
            EffectView::Tooltip(panel::tooltip_of(reason + "，"@ + seconds + " 秒后重试"@)),
            EffectView::Duration("--"@),
        ],
    }
}

/// The delay after a session that lasted `lasted_ms`: one that held starts over.
pub open spec fn delay_after(next: nat, lasted_ms: u64) -> nat {
    if lasted_ms >= reconnect::STABLE_SESSION_MS {
        reconnect::FIRST_DELAY as nat
    } else {
        next
    }
}

/// Why a session is not started.
pub open spec fn start_refusal(
    state: SharedView,
    username: Seq<char>,
    password: Seq<char>,
    servers: Seq<Ipv4Addr>,
    adapter_found: bool,
) -> Option<EffectView> {
    if state.active || state.quitting {
        Some(EffectView::Status("连接已在进行中"@))
    } else if text::trimmed(username).len() == 0 || password.len() == 0 {
        Some(EffectView::Status("请先填写账号和密码"@))
    } else if servers.len() == 0 {
        Some(
            EffectView::Connection {
                state: ConnectionState::Disconnected,
                detail: "没有可用的认证服务器地址"@,
            },
        )
    } else if !adapter_found {
        Some(
            EffectView::Connection {
                state: ConnectionState::Disconnected,
                detail: "未检测到可用的物理网卡，已在设置中排除虚拟网卡"@,
            },
        )
    } else {
        None
    }
}

/// What the log says of a session that begins. The account is not in it.
pub open spec fn start_record(found: AdapterView, servers: Seq<Ipv4Addr>) -> Seq<char> {
    "开始认证：网卡 "@ + found.friendly_name + "（"@ + found.description + "，"@
        + net::ipv4_text(found.ipv4) + "），服务器 "@ + text::joined(
        net::ipv4_texts(servers),
        ", "@,
    )
}

/// What the beginning of a session brings.
pub open spec fn started(
    state: SharedView,
    found: AdapterView,
    servers: Seq<Ipv4Addr>,
) -> Reaction {
    Reaction {
        state: SharedView { active: true, connected_since: None, pending_auto: None, ..state },
        effects: seq![
            EffectView::Record(start_record(found, servers)),
            EffectView::Connection {
                state: ConnectionState::Connecting,
                detail: "正在请求挑战…"@,
            },
        ],
    }
}

/// The adapter that a session uses: the one with the configured address, or else the best.
pub open spec fn is_chosen(
    adapters: Seq<AdapterInfo>,
    local_ip: Option<Ipv4Addr>,
    preferred_route: Option<u32>,
    chosen: Option<usize>,
) -> bool {
    match local_ip {
        Some(address) => match chosen {
            Some(i) => i < adapters.len() && adapters[i as int].ipv4 == address && forall|j: int|
                0 <= j < i ==> (#[trigger] adapters[j]).ipv4 != address,
            None => forall|j: int| 0 <= j < adapters.len() ==> (#[trigger] adapters[j]).ipv4
                != address,
        },
        None => match chosen {
            Some(i) => adapter::is_best(adapters, preferred_route, i as int),
            None => adapters.len() == 0,
        },
    }
}

/// Whether `after` is `before` with what the configuration file sets.
pub open spec fn settings_applied(
    before: SessionConfig,
    settings: ConfigView,
    after: SessionConfig,
) -> bool {
    &&& after.local_ipv4 == match settings.local_ip {
        Some(address) => address,
        None => before.local_ipv4,
    }
    &&& after.mac == match settings.mac {
        Some(mac) => mac,
        None => before.mac,
    }
    &&& after.hostname@ == match settings.hostname {
        Some(name) => vstd::utf8::encode_utf8(name),
        None => before.hostname@,
    }
    &&& after.primary_dns@ == match settings.dns {
        Some(address) => address.bytes(),
        None => before.primary_dns@,
    }
    &&& after.dhcp_server@ == match settings.dhcp {
        Some(address) => address.bytes(),
        None => before.dhcp_server@,
    }
    &&& after.server_port == match settings.server_port {
        Some(port) => port,
        None => before.server_port,
    }
    &&& after.local_port == match settings.local_port {
        Some(port) => port,
        None => before.local_port,
    }
    &&& after.auth_route == match settings.auth_route {
        Some(mode) => mode,
        None => before.auth_route,
    }
    &&& after.servers == before.servers
    &&& after.bind_ipv4 == before.bind_ipv4
    &&& after.username == before.username
    &&& after.password == before.password
    &&& after.auth_version == before.auth_version
    &&& after.keepalive_version == before.keepalive_version
    &&& after.keepalive_checksum == before.keepalive_checksum
    &&& after.control_status == before.control_status
    &&& after.adapter_num == before.adapter_num
    &&& after.ip_dog == before.ip_dog
    &&& after.request_timeout_ms == before.request_timeout_ms
    &&& after.keepalive_interval_ms == before.keepalive_interval_ms
    &&& after.keepalive_retries == before.keepalive_retries
    &&& after.allow_loopback_server == before.allow_loopback_server
}

impl Default for Shared {
    fn default() -> (shared: Self)
        ensures
            shared@ == fresh(),
    {
        Shared {
            active: false,
            connected_since: None,
            pending_auto: None,
            hide_at: None,
            minimize_to_tray: true,
            quitting: false,
            probing: false,
            edit_adapter: None,
            network_busy: false,
        }
    }
}

/// What the login form shows at the start; what is `None` stays as it is.
#[derive(Debug, Clone, PartialEq, Eq)]
pub struct Form {
    pub username: Option<String>,
    pub password: Option<String>,
    pub config_status: Option<&'static str>,
    pub options: Option<Options>,
    pub start_with_windows: Option<bool>,
}

/// The boxes that a user can tick.
#[derive(Debug, Clone, Copy, PartialEq, Eq, Structural)]
pub struct Options {
    pub auto_login: bool,
    pub auto_reconnect: bool,
    pub minimize_to_tray: bool,
}

/// What a text that may be missing holds.
pub open spec fn words_of(words: Option<String>) -> Option<Seq<char>> {
    match words {
        Some(words) => Some(words@),
        None => None,
    }
}

/// What a text that may be missing holds.
pub open spec fn str_of(words: Option<&str>) -> Option<Seq<char>> {
    match words {
        Some(words) => Some(words@),
        None => None,
    }
}

/// Which credentials the form shows: saved ones win over those of the file.
pub open spec fn shown_credentials(
    settings: ConfigView,
    loaded: Option<Preferences>,
) -> Option<(Seq<char>, Seq<char>)> {
    match loaded {
        Some(saved) => if saved.username@.len() > 0 {
            Some((saved.username@, saved.password@))
        } else if settings.account.len() > 0 {
            Some((settings.account, settings.password))
        } else {
            None
        },
        None => if settings.account.len() > 0 {
            Some((settings.account, settings.password))
        } else {
            None
        },
    }
}

/// What is said of the saved settings.
pub open spec fn settings_status(loaded: Option<Preferences>, autostart: Option<bool>) -> Option<
    Seq<char>,
> {
    if autostart is None {
        Some("无法读取开机启动状态"@)
    } else {
        match loaded {
            None => Some("读取失败，请重新保存账号"@),
            Some(saved) => if saved.username@.len() > 0 {
                Some("已加载加密设置"@)
            } else {
                None
            },
        }
    }
}

/// The state that a start leads to: an automatic login is planned where the settings are in order
/// and credentials were saved for it.
pub open spec fn attached(complaint: bool, loaded: Option<Preferences>, now_ms: u64) -> SharedView {
    match loaded {
        None => fresh(),
        Some(saved) => SharedView {
            minimize_to_tray: saved.minimize_to_tray,
            pending_auto: if !complaint && saved.auto_login && saved.username@.len() > 0
                && saved.password@.len() > 0 {
                Some(
                    PendingView {
                        username: saved.username@,
                        password: saved.password@,
                        auto_reconnect: saved.auto_reconnect,
                        deadline_ms: later(now_ms, AUTO_LOGIN_WAIT_MS),
                    },
                )
            } else {
                None
            },
            ..fresh()
        },
    }
}

/// A session to run.
#[derive(Debug, Clone, PartialEq, Eq)]
pub struct Launch {
    /// Which of the adapters carries it.
    pub adapter: usize,
    pub config: SessionConfig,
}

/// What came of a request to connect.
#[derive(Debug, Clone, PartialEq, Eq)]
pub struct Started {
    pub effects: Vec<Effect>,
    pub launch: Option<Launch>,
}

/// What follows a session.
#[derive(Debug, Clone, PartialEq, Eq)]
pub struct Ended {
    pub effects: Vec<Effect>,
    /// How many seconds later the next session begins, if there is one.
    pub retry_after: Option<u64>,
}

/// Which probes a request stands for.
#[derive(Debug, Clone, Copy, PartialEq, Eq, Structural)]
pub struct ProbePlan {
    pub campus: bool,
    pub internet_v4: bool,
    pub internet_v6: bool,
}

/// Which probes a request stands for: the campus network, the public one, or everything.
pub fn probe_plan(kind: i32) -> (plan: ProbePlan)
    ensures
        plan.campus == (kind == 0 || kind == 2),
        plan.internet_v4 == (kind == 1 || kind == 2),
        plan.internet_v6 == (kind == 2),
{
    ProbePlan {
        campus: kind == 0 || kind == 2,
        internet_v4: kind == 1 || kind == 2,
        internet_v6: kind == 2,
    }
}

/// What the log says of a probe.
pub fn probe_record(label: &str, result: &str) -> (line: String)
    ensures
        line@ == label@ + "："@ + result@,
{
    let mut line = label.to_string();
    line.append("：");
    line.append(result);
    line
}

/// The client behind the window.
#[derive(Debug, Clone, PartialEq, Eq)]
pub struct Backend {
    pub shared: Shared,
    /// What the configuration file says.
    pub settings: ClientConfig,
}

fn no_effects() -> (effects: Vec<Effect>)
    ensures
        effects@ == Seq::<Effect>::empty(),
{
    Vec::new()
}

fn push(effects: &mut Vec<Effect>, effect: Effect)
    ensures
        effect_views(final(effects)@) == effect_views(old(effects)@).push(effect@),
{
    effects.push(effect);
    assert(effect_views(effects@) =~= effect_views(old(effects)@).push(effect@));
}

fn status(words: &str) -> (effect: Effect)
    ensures
        effect@ == EffectView::Status(words@),
{
    Effect::Status(words.to_string())
}

fn connection(state: ConnectionState, detail: &str) -> (effect: Effect)
    ensures
        effect@ == (EffectView::Connection { state, detail: detail@ }),
{
    Effect::Connection { state, detail: detail.to_string() }
}

fn tooltip(note: &str) -> (effect: Effect)
    ensures
        effect@ == EffectView::Tooltip(panel::tooltip_of(note@)),
{
    Effect::Tooltip(panel::tooltip_text(note))
}

fn record(words: &str) -> (effect: Effect)
    ensures
        effect@ == EffectView::Record(words@),
{
    Effect::Record(words.to_string())
}

fn duration(since_ms: u64, now_ms: u64) -> (effect: Effect)
    ensures
        effect@ == EffectView::Duration(panel::duration_text(seconds_between(since_ms, now_ms))),
{
    let seconds: u64 = if since_ms <= now_ms {
        (now_ms - since_ms) / 1000
    } else {
        0
    };
    Effect::Duration(panel::format_duration(seconds))
}

fn after(now_ms: u64, wait_ms: u64) -> (moment: u64)
    ensures
        moment == later(now_ms, wait_ms),
{
    if now_ms <= u64::MAX - wait_ms {
        now_ms + wait_ms
    } else {
        u64::MAX
    }
}

impl Backend {
    /// Sets up the client: what the form shows, and whether a login is planned. `complaint` says
    /// that the configuration file has no effect.
    pub fn attach(
        settings: ClientConfig,
        complaint: bool,
        loaded: Option<Preferences>,
        autostart: Option<bool>,
        now_ms: u64,
    ) -> (attached_to: (Backend, Form))
        ensures
            attached_to.0.settings == settings,
            attached_to.0.shared@ == attached(complaint, loaded, now_ms),
            consistent(attached_to.0.shared@),
            match shown_credentials(settings@, loaded) {
                Some(credentials) => words_of(attached_to.1.username) == Some(credentials.0)
                    && words_of(attached_to.1.password) == Some(credentials.1),
                None => attached_to.1.username is None && attached_to.1.password is None,
            },
            str_of(attached_to.1.config_status) == settings_status(loaded, autostart),
            attached_to.1.options == match loaded {
                Some(saved) => Some(
                    Options {
                        auto_login: saved.auto_login,
                        auto_reconnect: saved.auto_reconnect,
                        minimize_to_tray: saved.minimize_to_tray,
                    },
                ),
                None => None::<Options>,
            },
            attached_to.1.start_with_windows == autostart,
    {
        let mut shared = Shared::default();
        let mut form = Form {
            username: None,
            password: None,
            config_status: None,
            options: None,
            start_with_windows: autostart,
        };
        if !settings.account.as_str().is_empty() {
            form.username = Some(settings.account.clone());
            form.password = Some(settings.password.clone());
        }
        match loaded {
            Some(saved) => {
                if !saved.username.as_str().is_empty() {
                    form.config_status = Some("已加载加密设置");
                    form.username = Some(saved.username.clone());
                    form.password = Some(saved.password.clone());
                }
                form.options = Some(
                    Options {
                        auto_login: saved.auto_login,
                        auto_reconnect: saved.auto_reconnect,
                        minimize_to_tray: saved.minimize_to_tray,
                    },
                );
                shared.minimize_to_tray = saved.minimize_to_tray;
                if !complaint && saved.auto_login && !saved.username.as_str().is_empty()
                    && !saved.password.as_str().is_empty() {
                    shared.pending_auto = Some(
                        PendingLogin {
                            username: saved.username,
                            password: saved.password,
                            auto_reconnect: saved.auto_reconnect,
                            deadline_ms: after(now_ms, AUTO_LOGIN_WAIT_MS),
                        },
                    );
                }
            },
            None => {
                form.config_status = Some("读取失败，请重新保存账号");
            },
        }
        if autostart.is_none() {
            form.config_status = Some("无法读取开机启动状态");
        }
        (Backend { shared, settings }, form)
    }

    /// One second has passed.
    pub fn tick(&mut self, now_ms: u64, visible: bool) -> (effects: Vec<Effect>)
        ensures
            reaction_of(final(self).shared@, effects@) == ticked(
                old(self).shared@,
                now_ms,
                visible,
            ),
            final(self).settings == old(self).settings,
    {
        let mut effects = no_effects();
        assert(effect_views(effects@) =~= Seq::empty());
        if self.shared.quitting {
            return effects;
        }
        if let Some(since) = self.shared.connected_since {
            if visible {
                push(&mut effects, duration(since, now_ms));
            }
        }
        if let Some(due) = self.shared.hide_at {
            if now_ms >= due {
                self.shared.hide_at = None;
                push(&mut effects, tooltip("登录成功，已在托盘运行"));
                push(&mut effects, Effect::HideWindow);
                assert(effect_views(effects@) =~= ticked(
                    old(self).shared@,
                    now_ms,
                    visible,
                ).effects);
                return effects;
            }
        }
        let overdue = match &self.shared.pending_auto {
            Some(login) => Some(now_ms > login.deadline_ms),
            None => None,
        };
        if let Some(overdue) = overdue {
            if overdue {
                self.shared.pending_auto = None;
                push(
                    &mut effects,
                    connection(
                        ConnectionState::Disconnected,
                        "自动登录等待网卡超时，请连接网络后手动连接",
                    ),
                );
            } else {
                push(&mut effects, Effect::LookForAdapter);
            }
        }
        assert(effect_views(effects@) =~= ticked(old(self).shared@, now_ms, visible).effects);
        effects
    }

    /// An adapter was looked for.
    pub fn adapter_looked(&mut self, found: bool) -> (effects: Vec<Effect>)
        ensures
            reaction_of(final(self).shared@, effects@) == looked(old(self).shared@, found),
            final(self).settings == old(self).settings,
    {
        let mut effects = no_effects();
        if self.shared.pending_auto.is_some() {
            if found {
                let pending = self.shared.pending_auto.take();
                if let Some(login) = pending {
                    push(
                        &mut effects,
                        Effect::Login {
                            username: login.username,
                            password: login.password,
                            auto_reconnect: login.auto_reconnect,
                        },
                    );
                }
            } else {
                push(
                    &mut effects,
                    connection(ConnectionState::WaitingForNetwork, "自动登录正在等待可用网卡…"),
                );
            }
        }
        assert(effect_views(effects@) =~= looked(old(self).shared@, found).effects);
        effects
    }

    /// Probes are asked for. They run where the answer is not empty.
    pub fn probe(&mut self) -> (effects: Vec<Effect>)
        ensures
            reaction_of(final(self).shared@, effects@) == probe_requested(old(self).shared@),
            final(self).settings == old(self).settings,
    {
        let mut effects = no_effects();
        if !self.shared.probing && !self.shared.quitting {
            self.shared.probing = true;
            push(&mut effects, Effect::ProbeBusy(true));
        }
        assert(effect_views(effects@) =~= probe_requested(old(self).shared@).effects);
        effects
    }

    /// The probes are over.
    pub fn probe_finished(&mut self) -> (effects: Vec<Effect>)
        ensures
            final(self).shared@ == (SharedView { probing: false, ..old(self).shared@ }),
            effect_views(effects@) == seq![EffectView::ProbeBusy(false)],
            final(self).settings == old(self).settings,
    {
        self.shared.probing = false;
        let mut effects = no_effects();
        push(&mut effects, Effect::ProbeBusy(false));
        assert(effect_views(effects@) =~= seq![EffectView::ProbeBusy(false)]);
        effects
    }

    /// The program is to end.
    pub fn quit(&mut self) -> (effects: Vec<Effect>)
        ensures
            reaction_of(final(self).shared@, effects@) == quit_requested(old(self).shared@),
            final(self).settings == old(self).settings,
    {
        self.shared.quitting = true;
        self.shared.pending_auto = None;
        self.shared.hide_at = None;
        let mut effects = no_effects();
        push(&mut effects, record("请求退出"));
        if self.shared.network_busy {
            push(&mut effects, status("等待网络设置操作完成后退出…"));
        } else if self.shared.active {
            push(&mut effects, Effect::RequestStop);
            push(
                &mut effects,
                connection(ConnectionState::Disconnecting, "正在下线，完成后退出…"),
            );
        } else {
            push(&mut effects, Effect::Quit);
        }
        assert(effect_views(effects@) =~= quit_requested(old(self).shared@).effects);
        effects
    }

    /// Whether the address settings can be opened or changed now.
    pub fn network_available(&self) -> (yes: bool)
        ensures
            yes == network_free(self.shared@),
    {
        !self.shared.active && !self.shared.quitting && !self.shared.network_busy
    }

    /// The network editor is asked for, and this is the adapter that it would edit.
    pub fn open_network_editor(&mut self, found: Option<AdapterInfo>) -> (effects: Vec<Effect>)
        ensures
            reaction_of(final(self).shared@, effects@) == editor_requested(
                old(self).shared@,
                match found {
                    Some(found) => Some(found@),
                    None => None,
                },
            ),
            final(self).settings == old(self).settings,
    {
        let mut effects = no_effects();
        if !self.network_available() {
            assert(effect_views(effects@) =~= Seq::empty());
            return effects;
        }
        match found {
            None => {
                push(&mut effects, status("未找到可配置的物理网卡"));
                assert(effect_views(effects@) =~= seq![
                    EffectView::Status("未找到可配置的物理网卡"@),
                ]);
            },
            Some(found) => {
                push(&mut effects, Effect::OpenEditor(panel::editor_fields(&found)));
                push(
                    &mut effects,
                    Effect::NetworkMessage(
                        "应用时会请求管理员权限，并可能短暂中断此网卡的连接。".to_string(),
                    ),
                );
                assert(effect_views(effects@) =~= seq![
                    editor_of(found@),
                    EffectView::NetworkMessage(
                        "应用时会请求管理员权限，并可能短暂中断此网卡的连接。"@,
                    ),
                ]);
                self.shared.pending_auto = None;
                self.shared.edit_adapter = Some(found);
            },
        }
        effects
    }

    /// The address settings are to be changed, and these are the adapters that are there.
    pub fn apply_network(
        &mut self,
        ip: &str,
        mask: &str,
        gateway: &str,
        dns: &str,
        adapters: &[AdapterInfo],
    ) -> (effects: Vec<Effect>)
        ensures
            reaction_of(final(self).shared@, effects@) == change_requested(
                old(self).shared@,
                static_ipv4::configuration_of(ip@, mask@, gateway@, dns@),
                adapters@,
            ),
            final(self).settings == old(self).settings,
    {
        let mut effects = no_effects();
        assert(effect_views(effects@) =~= Seq::empty());
        let config = match Configuration::parse(ip, mask, gateway, dns) {
            Ok(config) => config,
            Err(message) => {
                let ghost words = message@;
                push(&mut effects, Effect::NetworkMessage(message));
                assert(effect_views(effects@) =~= seq![EffectView::NetworkMessage(words)]);
                return effects;
            },
        };
        if !self.network_available() {
            return effects;
        }
        let name = match &self.shared.edit_adapter {
            None => return effects,
            Some(found) => if adapter::still_present(adapters, found) {
                Some(found.friendly_name.clone())
            } else {
                None
            },
        };
        match name {
            None => {
                push(
                    &mut effects,
                    Effect::NetworkMessage("网卡已变化，请返回后重新打开网络设置".to_string()),
                );
            },
            Some(adapter_name) => {
                self.shared.network_busy = true;
                push(&mut effects, Effect::NetworkBusy(true));
                push(
                    &mut effects,
                    Effect::NetworkMessage("等待管理员授权与应用结果…".to_string()),
                );
                push(&mut effects, Effect::Apply { config, adapter_name });
            },
        }
        assert(effect_views(effects@) =~= change_requested(
            old(self).shared@,
            static_ipv4::configuration_of(ip@, mask@, gateway@, dns@),
            adapters@,
        ).effects);
        effects
    }

    /// A change of the address settings is over.
    pub fn network_applied(&mut self, result: Result<(), String>) -> (effects: Vec<Effect>)
        ensures
            reaction_of(final(self).shared@, effects@) == change_finished(
                old(self).shared@,
                match result {
                    Ok(()) => Ok(()),
                    Err(message) => Err(message@),
                },
            ),
            final(self).settings == old(self).settings,
    {
        self.shared.network_busy = false;
        let mut effects = no_effects();
        push(&mut effects, Effect::NetworkBusy(false));
        push(
            &mut effects,
            Effect::NetworkMessage(
                match result {
                    Ok(()) => "IPv4 设置已应用，可返回主界面连接".to_string(),
                    Err(message) => message,
                },
            ),
        );
        if self.shared.quitting {
            push(&mut effects, Effect::Quit);
        }
        assert(effect_views(effects@) =~= change_finished(
            old(self).shared@,
            match result {
                Ok(()) => Ok(()),
                Err(message) => Err(message@),
            },
        ).effects);
        effects
    }

    /// The session is to end.
    pub fn stop(&mut self) -> (effects: Vec<Effect>)
        ensures
            reaction_of(final(self).shared@, effects@) == stop_requested(old(self).shared@),
            final(self).settings == old(self).settings,
    {
        let mut effects = no_effects();
        if self.shared.pending_auto.is_some() {
            self.shared.pending_auto = None;
            push(&mut effects, connection(ConnectionState::Disconnected, "已取消自动登录"));
        } else if self.shared.active {
            push(&mut effects, Effect::RequestStop);
            push(&mut effects, connection(ConnectionState::Disconnecting, "正在下线…"));
        } else {
            push(&mut effects, status("当前没有进行中的连接"));
        }
        assert(effect_views(effects@) =~= stop_requested(old(self).shared@).effects);
        effects
    }

    /// The window's close button. The window is only hidden where `minimize` is set, else the
    /// program is to quit.
    pub fn close_to_tray(&mut self, minimize: bool) -> (effects: Vec<Effect>)
        ensures
            reaction_of(final(self).shared@, effects@) == close_requested(
                old(self).shared@,
                minimize,
            ),
            final(self).settings == old(self).settings,
    {
        self.shared.minimize_to_tray = minimize;
        self.shared.hide_at = None;
        let mut effects = no_effects();
        if minimize {
            push(&mut effects, record("关闭窗口：按设置最小化到托盘"));
            push(&mut effects, tooltip("已最小化到托盘"));
            push(&mut effects, Effect::HideWindow);
        } else {
            push(&mut effects, record("关闭窗口：按设置直接退出"));
        }
        assert(effect_views(effects@) =~= close_requested(old(self).shared@, minimize).effects);
        effects
    }

    /// The options were saved: the one on closing holds from now on.
    pub fn saved(&mut self, minimize: bool)
        ensures
            final(self).shared@ == option_saved(old(self).shared@, minimize),
            final(self).settings == old(self).settings,
    {
        self.shared.minimize_to_tray = minimize;
        if !minimize {
            self.shared.hide_at = None;
        }
    }

    /// The session reports something.
    pub fn on_event(&mut self, event: SessionEvent, now_ms: u64) -> (effects: Vec<Effect>)
        ensures
            reaction_of(final(self).shared@, effects@) == reported(
                old(self).shared@,
                event@,
                now_ms,
            ),
            final(self).settings == old(self).settings,
    {
        let mut effects = no_effects();
        match event {
            SessionEvent::Phase(phase) => match phase {
                SessionPhase::Challenge => {
                    push(&mut effects, connection(ConnectionState::Connecting, "正在请求挑战…"));
                },
                SessionPhase::Authenticating => {
                    push(&mut effects, connection(ConnectionState::Connecting, "正在认证…"));
                },
                SessionPhase::Online => {
                    let minimize = self.shared.minimize_to_tray;
                    self.shared.connected_since = Some(now_ms);
                    self.shared.hide_at = if minimize {
                        Some(after(now_ms, HIDE_AFTER_LOGIN_MS))
                    } else {
                        None
                    };
                    push(&mut effects, record("认证成功，进入保活"));
                    push(
                        &mut effects,
                        connection(ConnectionState::Connected, "认证成功，正在保活"),
                    );
                    push(&mut effects, Effect::Duration("0 秒".to_string()));
                    push(
                        &mut effects,
                        tooltip(
                            if minimize {
                                "已连接，稍后最小化到托盘"
                            } else {
                                "已连接，保活中"
                            },
                        ),
                    );
                },
                SessionPhase::KeepAlive => {
                    push(&mut effects, connection(ConnectionState::Connected, "保活中"));
                },
                SessionPhase::LoggedOut => {
                    push(&mut effects, record("已发送下线报文"));
                    push(&mut effects, connection(ConnectionState::Disconnected, "已下线"));
                },
            },
            SessionEvent::Note(note) => {
                push(&mut effects, record(&note));
                push(&mut effects, status(&note));
            },
            SessionEvent::KeepAliveCycle { sequence, tail } => {
                let mut words = "保活正常，序号 ".to_string();
                words.append(&text::decimal_text(sequence as u64));
                push(&mut effects, record(&words));
                push(&mut effects, status(&words));
                if let Some(since) = self.shared.connected_since {
                    push(&mut effects, duration(since, now_ms));
                }
            },
        }
        assert(effect_views(effects@) =~= reported(old(self).shared@, event@, now_ms).effects);
        effects
    }

    /// The last session is over. `converted` are the code units that the system's conversion from
    /// code page 936 makes of the `message_bytes` of a rejection.
    pub fn finish(
        &mut self,
        result: &Result<(), SessionError>,
        converted: &[u16],
    ) -> (effects: Vec<Effect>)
        ensures
            reaction_of(final(self).shared@, effects@) == finished(
                old(self).shared@,
                ending(crate::session::result_view(*result), converted@),
            ),
            final(self).settings == old(self).settings,
    {
        self.shared.active = false;
        self.shared.connected_since = None;
        self.shared.hide_at = None;
        let detail = match result {
            Ok(()) => "已下线".to_string(),
            Err(SessionError::Stopped) => "已下线".to_string(),
            Err(error) => reconnect::describe_failure(error, converted),
        };
        let ghost told = ending(crate::session::result_view(*result), converted@);
        assert(detail@ == told);
        let mut line = "会话结束：".to_string();
        line.append(&detail);
        let mut effects = no_effects();
        push(&mut effects, Effect::Duration("--".to_string()));
        push(&mut effects, Effect::Record(line));
        push(&mut effects, tooltip(&detail));
        push(&mut effects, connection(ConnectionState::Disconnected, &detail));
        if self.shared.quitting {
            push(&mut effects, Effect::Quit);
        }
        assert(effect_views(effects@) =~= finished(old(self).shared@, told).effects);
        effects
    }

    /// A session is over: either another one follows after a wait, or it was the last.
    pub fn session_ended(
        &mut self,
        backoff: &mut ReconnectBackoff,
        result: &Result<(), SessionError>,
        converted: &[u16],
        auto_reconnect: bool,
        stopped: bool,
        lasted_ms: u64,
    ) -> (ended: Ended)
        ensures
            final(self).settings == old(self).settings,
            goes_on(crate::session::result_view(*result), auto_reconnect, stopped) ==> {
                let delay = delay_after(old(backoff)@, lasted_ms);
                &&& ended.retry_after matches Some(seconds) && seconds == delay
                &&& final(backoff)@ == reconnect::doubled(delay)
                &&& reaction_of(final(self).shared@, ended.effects@) == interrupted(
                    old(self).shared@,
                    crate::session::result_view(*result)->Err_0,
                    converted@,
                    delay,
                )
            },
            !goes_on(crate::session::result_view(*result), auto_reconnect, stopped) ==> {
                &&& ended.retry_after is None
                &&& final(backoff)@ == old(backoff)@
                &&& reaction_of(final(self).shared@, ended.effects@) == finished(
                    old(self).shared@,
                    ending(crate::session::result_view(*result), converted@),
                )
            },
    {
        let error = match result {
            Ok(()) => None,
            Err(error) => if auto_reconnect && !stopped && reconnect::retryable_error(error) {
                Some(error)
            } else {
                None
            },
        };
        let error = match error {
            Some(error) => error,
            None => {
                let effects = self.finish(result, converted);
                return Ended { effects, retry_after: None };
            },
        };
        if lasted_ms >= reconnect::STABLE_SESSION_MS {
            backoff.reset();
        }
        let delay: u64 = backoff.next_delay();
        let seconds = text::decimal_text(delay);
        let reason = reconnect::describe_failure(error, converted);
        let mut line = "连接中断：".to_string();
        line.append(&reason);
        line.append("；");
        line.append(&seconds);
        line.append(" 秒后重试");
        let mut detail = "连接中断，".to_string();
        detail.append(&seconds);
        detail.append(" 秒后重新认证…");
        let mut note = reason;
        note.append("，");
        note.append(&seconds);
        note.append(" 秒后重试");
        self.shared.connected_since = None;
        self.shared.hide_at = None;
        let mut effects = no_effects();
        push(&mut effects, Effect::Record(line));
        push(&mut effects, Effect::Connection { state: ConnectionState::Reconnecting, detail });
        push(&mut effects, tooltip(&note));
        push(&mut effects, Effect::Duration("--".to_string()));
        assert(effect_views(effects@) =~= interrupted(
            old(self).shared@,
            error@,
            converted@,
            delay as nat,
        ).effects);
        Ended { effects, retry_after: Some(delay) }
    }
}

/// Takes over what the configuration file sets.
pub fn apply_settings(config: &mut SessionConfig, settings: &ClientConfig)
    ensures
        settings_applied(*old(config), settings@, *final(config)),
{
    if let Some(value) = settings.local_ip {
        config.local_ipv4 = value;
    }
    if let Some(value) = settings.mac {
        config.mac = value;
    }
    if let Some(value) = &settings.hostname {
        config.hostname = vstd::slice::slice_to_vec(value.as_str().as_bytes());
    }
    if let Some(value) = settings.dns {
        config.primary_dns = value.octets();
    }
    if let Some(value) = settings.dhcp {
        config.dhcp_server = value.octets();
    }
    if let Some(value) = settings.server_port {
        config.server_port = value;
    }
    if let Some(value) = settings.local_port {
        config.local_port = value;
    }
    if let Some(value) = settings.auth_route {
        config.auth_route = value;
    }
}

/// Whether a configuration is that of a new session: the form's credentials, the adapter's
/// addresses, this machine's name, and then what the file sets.
pub open spec fn is_session_config(
    config: SessionConfig,
    settings: ConfigView,
    servers: Seq<Ipv4Addr>,
    username: Seq<char>,
    password: Seq<char>,
    hostname: Seq<char>,
    found: AdapterView,
) -> bool {
    &&& config.servers@ == servers
    &&& config.username@ == vstd::utf8::encode_utf8(text::trimmed(username))
    &&& config.password@ == vstd::utf8::encode_utf8(password)
    &&& config.local_ipv4 == match settings.local_ip {
        Some(address) => address,
        None => found.ipv4,
    }
    &&& config.mac == match settings.mac {
        Some(mac) => mac,
        None => found.mac,
    }
    &&& config.hostname@ == vstd::utf8::encode_utf8(
        match settings.hostname {
            Some(name) => name,
            None => hostname,
        },
    )
    &&& config.primary_dns@ == match settings.dns {
        Some(address) => address.bytes(),
        None => seq![10u8, 10, 10, 10],
    }
    &&& config.dhcp_server@ == match settings.dhcp {
        Some(address) => address.bytes(),
        None => seq![0u8, 0, 0, 0],
    }
    &&& config.server_port == match settings.server_port {
        Some(port) => port,
        None => crate::transport::DEFAULT_LOCAL_PORT,
    }
    &&& config.local_port == match settings.local_port {
        Some(port) => port,
        None => crate::transport::DEFAULT_LOCAL_PORT,
    }
    &&& config.auth_route == match settings.auth_route {
        Some(mode) => mode,
        None => crate::route::RouteMode::Off,
    }
    &&& config.bind_ipv4 is None
    &&& config.auth_version@ == seq![0x68u8, 0x00]
    &&& config.keepalive_version@ == seq![0xdcu8, 0x02]
    &&& config.keepalive_checksum is Zero
    &&& config.control_status == 0x20
    &&& config.adapter_num == 0x03
    &&& config.ip_dog == 0x01
    &&& config.request_timeout_ms == 3000
    &&& config.keepalive_interval_ms == 20_000
    &&& config.keepalive_retries == 3
    &&& !config.allow_loopback_server
}

fn copy_addresses(addresses: &[Ipv4Addr]) -> (copy: Vec<Ipv4Addr>)
    ensures
        copy@ == addresses@,
{
    let mut copy: Vec<Ipv4Addr> = Vec::new();
    let mut i: usize = 0;
    while i < addresses.len()
        invariant
            i <= addresses@.len(),
            copy@ == addresses@.take(i as int),
        decreases addresses@.len() - i,
    {
        copy.push(addresses[i]);
        assert(addresses@.take(i + 1) =~= addresses@.take(i as int).push(addresses@[i as int]));
        i += 1;
    }
    assert(addresses@.take(addresses@.len() as int) =~= addresses@);
    copy
}

impl Backend {
    fn choose_adapter(
        &self,
        adapters: &[AdapterInfo],
        preferred_route: Option<u32>,
    ) -> (chosen: Option<usize>)
        ensures
            is_chosen(adapters@, self.settings@.local_ip, preferred_route, chosen),
            chosen matches Some(i) ==> i < adapters@.len(),
    {
        match self.settings.local_ip {
            Some(address) => adapter::find_by_address(adapters, address),
            None => adapter::select_for(adapters, preferred_route),
        }
    }

    /// A session is to begin. The servers, the adapters, the interface that the system would use
    /// to reach the first server and this machine's name are handed in.
    pub fn start(
        &mut self,
        username: &str,
        password: &str,
        servers: &[Ipv4Addr],
        adapters: &[AdapterInfo],
        preferred_route: Option<u32>,
        hostname: &str,
    ) -> (started_with: Started)
        ensures
            final(self).settings == old(self).settings,
            exists|chosen: Option<usize>|
                {
                    &&& #[trigger] is_chosen(
                        adapters@,
                        old(self).settings@.local_ip,
                        preferred_route,
                        chosen,
                    )
                    &&& match start_refusal(
                        old(self).shared@,
                        username@,
                        password@,
                        servers@,
                        chosen is Some,
                    ) {
                        Some(refusal) => {
                            &&& started_with.launch is None
                            &&& effect_views(started_with.effects@) == seq![refusal]
                            &&& final(self).shared@ == old(self).shared@
                        },
                        None => {
                            let found = adapters@[chosen->0 as int]@;
                            &&& started_with.launch matches Some(launch)
                                && launch.adapter == chosen->0 && is_session_config(
                                launch.config,
                                old(self).settings@,
                                servers@,
                                username@,
                                password@,
                                hostname@,
                                found,
                            )
                            &&& reaction_of(final(self).shared@, started_with.effects@) == started(
                                old(self).shared@,
                                found,
                                servers@,
                            )
                        },
                    }
                },
    {
        let chosen = self.choose_adapter(adapters, preferred_route);
        assert(is_chosen(adapters@, old(self).settings@.local_ip, preferred_route, chosen));
        let ghost refusal = start_refusal(
            old(self).shared@,
            username@,
            password@,
            servers@,
            chosen is Some,
        );
        let mut effects = no_effects();
        if self.shared.active || self.shared.quitting {
            push(&mut effects, status("连接已在进行中"));
            assert(effect_views(effects@) =~= seq![refusal->0]);
            return Started { effects, launch: None };
        }
        let account = text::trimmed_text(username);
        if account.as_str().is_empty() || password.is_empty() {
            push(&mut effects, status("请先填写账号和密码"));
            assert(effect_views(effects@) =~= seq![refusal->0]);
            return Started { effects, launch: None };
        }
        if servers.len() == 0 {
            push(
                &mut effects,
                connection(ConnectionState::Disconnected, "没有可用的认证服务器地址"),
            );
            assert(effect_views(effects@) =~= seq![refusal->0]);
            return Started { effects, launch: None };
        }
        let index: usize = match chosen {
            Some(index) => index,
            None => {
                push(
                    &mut effects,
                    connection(
                        ConnectionState::Disconnected,
                        "未检测到可用的物理网卡，已在设置中排除虚拟网卡",
                    ),
                );
                assert(effect_views(effects@) =~= seq![refusal->0]);
                return Started { effects, launch: None };
            },
        };
        let found = &adapters[index];
        let mut config = SessionConfig::new(
            copy_addresses(servers),
            vstd::slice::slice_to_vec(account.as_str().as_bytes()),
            vstd::slice::slice_to_vec(password.as_bytes()),
        );
        config.local_ipv4 = found.ipv4;
        config.mac = found.mac;
        config.hostname = vstd::slice::slice_to_vec(hostname.as_bytes());
        apply_settings(&mut config, &self.settings);
        let mut line = "开始认证：网卡 ".to_string();
        line.append(&found.friendly_name);
        line.append("（");
        line.append(&found.description);
        line.append("，");
        line.append(&net::ipv4_string(found.ipv4));
        line.append("），服务器 ");
        line.append(&text::join(&net::ipv4_strings(servers), ", "));
        self.shared.active = true;
        self.shared.connected_since = None;
        self.shared.pending_auto = None;
        push(&mut effects, Effect::Record(line));
        push(&mut effects, connection(ConnectionState::Connecting, "正在请求挑战…"));
        assert(effect_views(effects@) =~= started(
            old(self).shared@,
            adapters@[index as int]@,
            servers@,
        ).effects);
        Started { effects, launch: Some(Launch { adapter: index, config }) }
    }

    /// Takes the addresses of an adapter over into the next session, as far as the file does not
    /// set them.
    pub fn rebind(&self, config: &mut SessionConfig, found: &AdapterInfo)
        ensures
            *final(config) == (SessionConfig {
                local_ipv4: match self.settings.local_ip {
                    Some(address) => address,
                    None => found.ipv4,
                },
                mac: match self.settings.mac {
                    Some(mac) => mac,
                    None => found.mac,
                },
                ..*old(config)
            }),
    {
        config.local_ipv4 = match self.settings.local_ip {
            Some(address) => address,
            None => found.ipv4,
        };
        config.mac = match self.settings.mac {
            Some(mac) => mac,
            None => found.mac,
        };
    }
}

/// The choices that a form stands for. Blanks around the account are not part of it.
pub fn edited_preferences(username: &str, password: &str, options: Options) -> (edited: Preferences)
    ensures
        edited.username@ == text::trimmed(username@),
        edited.password@ == password@,
        edited.auto_login == options.auto_login,
        edited.auto_reconnect == options.auto_reconnect,
        edited.minimize_to_tray == options.minimize_to_tray,
{
    Preferences {
        username: text::trimmed_text(username),
        password: password.to_string(),
        auto_login: options.auto_login,
        auto_reconnect: options.auto_reconnect,
        minimize_to_tray: options.minimize_to_tray,
    }
}

/// Why choices cannot be saved, if they cannot: an automatic login needs what a session needs.
pub open spec fn objection(
    username: Seq<char>,
    password: Seq<char>,
    auto_login: bool,
    servers: Seq<Ipv4Addr>,
) -> Option<Seq<char>> {
    if !auto_login && username.len() == 0 && password.len() == 0 {
        None
    } else {
        config::shortcoming(
            ConfigView { account: username, password, servers, ..ConfigView::nothing() },
        )
    }
}

/// Checks choices before they are saved.
pub fn validate_preferences(prefs: &Preferences, servers: Vec<Ipv4Addr>) -> (result: Result<
    (),
    String,
>)
    ensures
        match result {
            Ok(()) => objection(
                prefs.username@,
                prefs.password@,
                prefs.auto_login,
                servers@,
            ) is None,
            Err(message) => objection(
                prefs.username@,
                prefs.password@,
                prefs.auto_login,
                servers@,
            ) == Some(message@),
        },
{
    if !prefs.auto_login && prefs.username.as_str().is_empty() && prefs.password.as_str().is_empty() {
        return Ok(());
    }
    let mut config = ClientConfig::default();
    config.account = prefs.username.clone();
    config.password = prefs.password.clone();
    config.servers = servers;
    match config.validate() {
        Ok(()) => Ok(()),
        Err(error) => Err(error.to_text()),
    }
}

/// How far saving the choices got.
#[derive(Debug, Clone, PartialEq, Eq)]
pub enum SaveOutcome {
    Saved,
    /// The choices are refused, or there is no place for them.
    Refused(String),
    /// The file could not be written.
    NotWritten(String),
    /// The file was written, but starting with the system could not be changed.
    NotRegistered(String),
}

/// What is said of an attempt to save: beside the settings, and in the status line.
#[derive(Debug, Clone, PartialEq, Eq)]
pub struct SaveReport {
    pub config_status: &'static str,
    pub status: String,
}

/// What is said of an attempt to save the choices.
pub fn save_report(outcome: SaveOutcome) -> (report: SaveReport)
    ensures
        report.config_status@ == (if outcome is Saved {
            "已加密保存"@
        } else {
            "保存未完成"@
        }),
        report.status@ == (match outcome {
            SaveOutcome::Saved => "设置已保存（自动登录在下次启动时生效）"@,
            SaveOutcome::Refused(message) => message@,
            SaveOutcome::NotWritten(reason) => "保存失败："@ + reason@,
            SaveOutcome::NotRegistered(reason) => "账号已保存，但开机启动设置失败："@ + reason@,
        }),
{
    match outcome {
        SaveOutcome::Saved => SaveReport {
            config_status: "已加密保存",
            status: "设置已保存（自动登录在下次启动时生效）".to_string(),
        },
        SaveOutcome::Refused(message) => SaveReport {
            config_status: "保存未完成",
            status: message,
        },
        SaveOutcome::NotWritten(reason) => {
            let mut words = "保存失败：".to_string();
            words.append(&reason);
            SaveReport { config_status: "保存未完成", status: words }
        },
        SaveOutcome::NotRegistered(reason) => {
            let mut words = "账号已保存，但开机启动设置失败：".to_string();
            words.append(&reason);
            SaveReport { config_status: "保存未完成", status: words }
        },
    }
}

/// Once the program is to quit, no timer, button or probe starts anything, and nothing takes the
/// wish back.
pub proof fn law_quitting_is_final(
    state: SharedView,
    now_ms: u64,
    visible: bool,
    parsed: Result<Setting, Seq<char>>,
    adapters: Seq<AdapterInfo>,
    found: Option<AdapterView>,
    event: EventView,
    result: Result<(), Seq<char>>,
    detail: Seq<char>,
    username: Seq<char>,
    password: Seq<char>,
    servers: Seq<Ipv4Addr>,
    adapter_found: bool,
)
    requires
        state.quitting,
    ensures
        ticked(state, now_ms, visible) == (Reaction { state, effects: Seq::empty() }),
        probe_requested(state) == (Reaction { state, effects: Seq::empty() }),
        editor_requested(state, found) == (Reaction { state, effects: Seq::empty() }),
        change_requested(state, parsed, adapters).state == state,
        start_refusal(state, username, password, servers, adapter_found) == Some(
            EffectView::Status("连接已在进行中"@),
        ),
        reported(state, event, now_ms).state.quitting,
        change_finished(state, result).state.quitting,
        finished(state, detail).state.quitting,
        stop_requested(state).state.quitting,
{
}

/// A wish to quit is granted: at once where nothing runs, and otherwise when what runs is over,
/// whether that is a session or a change of the address settings.
pub proof fn law_quitting_comes_true(
    state: SharedView,
    detail: Seq<char>,
    result: Result<(), Seq<char>>,
)
    ensures
        ({
            let asked = quit_requested(state);
            &&& asked.state.quitting
            &&& !state.active && !state.network_busy ==> asked.effects.last() == EffectView::Quit
            &&& state.active && !state.network_busy ==> asked.effects[1]
                == EffectView::RequestStop && finished(asked.state, detail).effects.last()
                == EffectView::Quit
            &&& state.network_busy ==> change_finished(asked.state, result).effects.last()
                == EffectView::Quit
        }),
{
}

/// There is one session at a time: while one runs, a request to connect only says so.
pub proof fn law_one_session_at_a_time(
    state: SharedView,
    username: Seq<char>,
    password: Seq<char>,
    servers: Seq<Ipv4Addr>,
    adapter_found: bool,
    found: AdapterView,
)
    ensures
        started(state, found, servers).state.active,
        state.active ==> start_refusal(state, username, password, servers, adapter_found) == Some(
            EffectView::Status("连接已在进行中"@),
        ),
{
}

/// The window only plans to hide itself where closing it means hiding it, whatever happens.
pub proof fn law_hiding_follows_the_option(
    state: SharedView,
    now_ms: u64,
    visible: bool,
    looked_at: bool,
    minimize: bool,
    event: EventView,
    detail: Seq<char>,
    error: ErrorView,
    converted: Seq<u16>,
    delay: nat,
    complaint: bool,
    loaded: Option<Preferences>,
    parsed: Result<Setting, Seq<char>>,
    adapters: Seq<AdapterInfo>,
    found: Option<AdapterView>,
    result: Result<(), Seq<char>>,
)
    requires
        consistent(state),
    ensures
        consistent(fresh()),
        consistent(attached(complaint, loaded, now_ms)),
        consistent(ticked(state, now_ms, visible).state),
        consistent(looked(state, looked_at).state),
        consistent(quit_requested(state).state),
        consistent(stop_requested(state).state),
        consistent(close_requested(state, minimize).state),
        consistent(option_saved(state, minimize)),
        consistent(reported(state, event, now_ms).state),
        consistent(finished(state, detail).state),
        consistent(interrupted(state, error, converted, delay).state),
        consistent(editor_requested(state, found).state),
        consistent(change_requested(state, parsed, adapters).state),
        consistent(change_finished(state, result).state),
{
}

/// After a login the window stays for the time of a glance and then hides, where the option says
/// so; else it stays.
pub proof fn law_the_success_is_seen(state: SharedView, now_ms: u64, then_ms: u64, visible: bool)
    requires
        !state.quitting,
        now_ms <= then_ms,
    ensures
        ({
            let online = reported(state, EventView::Phase(SessionPhase::Online), now_ms).state;
            let hides = ticked(online, then_ms, visible).effects.contains(EffectView::HideWindow);
            &&& then_ms < now_ms + HIDE_AFTER_LOGIN_MS && then_ms < u64::MAX ==> !hides
            &&& state.minimize_to_tray && then_ms >= now_ms + HIDE_AFTER_LOGIN_MS ==> hides
            &&& !state.minimize_to_tray ==> !hides
        }),
{
    let online = reported(state, EventView::Phase(SessionPhase::Online), now_ms).state;
    let effects = ticked(online, then_ms, visible).effects;
    if state.minimize_to_tray && then_ms >= now_ms + HIDE_AFTER_LOGIN_MS {
        assert(effects.last() == EffectView::HideWindow);
    }
}

/// What the log and the window are told at the beginning of a session does not depend on the
/// account or the password, and neither does anything that follows: no effect of a session names
/// them, as far as the session's own reports do not.
pub proof fn law_credentials_are_not_told(
    state: SharedView,
    other: SharedView,
    found: AdapterView,
    servers: Seq<Ipv4Addr>,
    now_ms: u64,
    visible: bool,
    detail: Seq<char>,
    event: EventView,
)
    requires
        other == (SharedView { pending_auto: other.pending_auto, ..state }),
        state.pending_auto is Some <==> other.pending_auto is Some,
        state.pending_auto is Some ==> state.pending_auto->0.deadline_ms
            == other.pending_auto->0.deadline_ms,
    ensures
        started(state, found, servers).effects == started(other, found, servers).effects,
        reported(state, event, now_ms).effects == reported(other, event, now_ms).effects,
        finished(state, detail).effects == finished(other, detail).effects,
        ticked(state, now_ms, visible).effects == ticked(other, now_ms, visible).effects,
        quit_requested(state).effects == quit_requested(other).effects,
        stop_requested(state).effects == stop_requested(other).effects,
{
}

/// A planned login can be called off, and is called off by quitting, by a login by hand and by
/// opening the network editor.
pub proof fn law_a_planned_login_can_be_called_off(
    state: SharedView,
    found: AdapterView,
    servers: Seq<Ipv4Addr>,
)
    ensures
        stop_requested(state).state.pending_auto is None,
        quit_requested(state).state.pending_auto is None,
        started(state, found, servers).state.pending_auto is None,
        network_free(state) ==> editor_requested(state, Some(found)).state.pending_auto is None,
{
}

/// Moments are counted in milliseconds and durations in whole seconds; a moment beyond the end of
/// the clock is the end of the clock, and a clock that went back shows no time at all.
pub proof fn law_how_time_is_counted(now_ms: u64, wait_ms: u64, since_ms: u64)
    ensures
        now_ms + wait_ms < 0x1_0000_0000_0000_0000 ==> later(now_ms, wait_ms) == now_ms + wait_ms,
        now_ms + wait_ms >= 0x1_0000_0000_0000_0000 ==> later(now_ms, wait_ms)
            == 0xffff_ffff_ffff_ffff,
        since_ms <= now_ms ==> {
            &&& 1000 * seconds_between(since_ms, now_ms) <= now_ms - since_ms
            &&& now_ms - since_ms < 1000 * seconds_between(since_ms, now_ms) + 1000
        },
        since_ms > now_ms ==> seconds_between(since_ms, now_ms) == 0,
{
}

/// A client that has just started runs nothing, plans nothing and closes to the tray.
pub proof fn law_what_a_client_starts_with()
    ensures
        ({
            let state = fresh();
            &&& !state.active && !state.quitting && !state.probing && !state.network_busy
            &&& state.connected_since is None && state.pending_auto is None
            &&& state.hide_at is None && state.edit_adapter is None
            &&& state.minimize_to_tray
        }),
{
}

/// What a second shows: the time online where the window is visible and the session is online,
/// and nothing else.
pub open spec fn second_shown(state: SharedView, now_ms: u64, visible: bool) -> Seq<EffectView> {
    if visible && state.connected_since is Some {
        seq![
            EffectView::Duration(
                panel::duration_text(seconds_between(state.connected_since->0, now_ms)),
            ),
        ]
    } else {
        Seq::empty()
    }
}

/// A second changes nothing but what it ends: a window that was to hide hides when its time has
/// come, a planned login that has waited long enough is given up, and until then an adapter is
/// looked for. The time online is shown first.
pub proof fn law_what_a_second_brings(state: SharedView, now_ms: u64, visible: bool)
    requires
        !state.quitting,
    ensures
        ({
            let t = ticked(state, now_ms, visible);
            let shown = second_shown(state, now_ms, visible);
            let hides = state.hide_at is Some && state.hide_at->0 <= now_ms;
            let waits = !hides && state.pending_auto is Some;
            &&& hides ==> t == (Reaction {
                state: SharedView { hide_at: None, ..state },
                effects: shown + seq![
                    EffectView::Tooltip(panel::tooltip_of("登录成功，已在托盘运行"@)),
                    EffectView::HideWindow,
                ],
            })
            &&& waits && now_ms <= state.pending_auto->0.deadline_ms ==> t == (Reaction {
                state,
                effects: shown + seq![EffectView::LookForAdapter],
            })
            &&& waits && now_ms > state.pending_auto->0.deadline_ms ==> t == (Reaction {
                state: SharedView { pending_auto: None, ..state },
                effects: shown + seq![
                    EffectView::Connection {
                        state: ConnectionState::Disconnected,
                        detail: "自动登录等待网卡超时，请连接网络后手动连接"@,
                    },
                ],
            })
            &&& !hides && !waits ==> t == (Reaction { state, effects: shown })
        }),
{
}

/// A planned login begins, with what was planned, as soon as there is an adapter; until then the
/// plan stays.
pub proof fn law_what_looking_for_an_adapter_brings(state: SharedView, found: bool)
    ensures
        ({
            let t = looked(state, found);
            &&& state.pending_auto is None ==> t.state == state && t.effects.len() == 0
            &&& state.pending_auto is Some && found ==> t.state == (SharedView {
                pending_auto: None,
                ..state
            }) && t.effects == seq![
                EffectView::Login {
                    username: state.pending_auto->0.username,
                    password: state.pending_auto->0.password,
                    auto_reconnect: state.pending_auto->0.auto_reconnect,
                },
            ]
            &&& state.pending_auto is Some && !found ==> t.state == state && t.effects == seq![
                EffectView::Connection {
                    state: ConnectionState::WaitingForNetwork,
                    detail: "自动登录正在等待可用网卡…"@,
                },
            ]
        }),
{
}

/// A wish to quit is noted, drops every plan, and waits for a change of the address settings
/// first, then for the session.
pub proof fn law_what_a_wish_to_quit_brings(state: SharedView)
    ensures
        ({
            let t = quit_requested(state);
            &&& t.state == (SharedView {
                quitting: true,
                pending_auto: None,
                hide_at: None,
                ..state
            })
            &&& t.effects[0] == EffectView::Record("请求退出"@)
            &&& state.network_busy ==> t.effects.len() == 2 && t.effects[1] == EffectView::Status(
                "等待网络设置操作完成后退出…"@,
            )
            &&& !state.network_busy && state.active ==> t.effects.len() == 3 && t.effects[1]
                == EffectView::RequestStop && t.effects[2] == (EffectView::Connection {
                state: ConnectionState::Disconnecting,
                detail: "正在下线，完成后退出…"@,
            })
            &&& !state.network_busy && !state.active ==> t.effects.len() == 2 && t.effects[1]
                == EffectView::Quit
        }),
{
}

/// A wish to disconnect calls a planned login off, else stops the session that runs, else says that
/// there is none. It changes nothing else.
pub proof fn law_what_a_wish_to_disconnect_brings(state: SharedView)
    ensures
        ({
            let t = stop_requested(state);
            &&& t.state == (SharedView { pending_auto: None, ..state })
            &&& state.pending_auto is Some ==> t.effects == seq![
                EffectView::Connection {
                    state: ConnectionState::Disconnected,
                    detail: "已取消自动登录"@,
                },
            ]
            &&& state.pending_auto is None && state.active ==> t.effects == seq![
                EffectView::RequestStop,
                EffectView::Connection {
                    state: ConnectionState::Disconnecting,
                    detail: "正在下线…"@,
                },
            ]
            &&& state.pending_auto is None && !state.active ==> t.effects == seq![
                EffectView::Status("当前没有进行中的连接"@),
            ]
        }),
{
}

/// Probes run one round at a time.
pub proof fn law_what_a_wish_to_probe_brings(state: SharedView)
    ensures
        ({
            let t = probe_requested(state);
            &&& state.probing || state.quitting ==> t.state == state && t.effects.len() == 0
            &&& !state.probing && !state.quitting ==> t.state == (SharedView {
                probing: true,
                ..state
            }) && t.effects == seq![EffectView::ProbeBusy(true)]
        }),
{
}

/// The editor opens where no session runs, no change is under way and the program is not to quit;
/// it shows what the adapter has, and the adapter is kept for the change.
pub proof fn law_what_opening_the_editor_brings(state: SharedView, found: Option<AdapterView>)
    ensures
        ({
            let t = editor_requested(state, found);
            let busy = state.active || state.quitting || state.network_busy;
            &&& busy ==> t.state == state && t.effects.len() == 0
            &&& !busy && found is None ==> t.state == state && t.effects == seq![
                EffectView::Status("未找到可配置的物理网卡"@),
            ]
            &&& !busy && found is Some ==> t.state == (SharedView {
                pending_auto: None,
                edit_adapter: found,
                ..state
            }) && t.effects.len() == 2 && t.effects[0] == (EffectView::OpenEditor {
                adapter_name: found->0.friendly_name,
                ip: net::ipv4_text(found->0.ipv4),
                mask: match found->0.subnet_mask {
                    Some(mask) => net::ipv4_text(mask),
                    None => Seq::empty(),
                },
                gateway: net::first_ipv4_text(found->0.gateways),
                dns: net::first_ipv4_text(found->0.dns),
            }) && t.effects[1] == EffectView::NetworkMessage(
                "应用时会请求管理员权限，并可能短暂中断此网卡的连接。"@,
            )
        }),
{
}

/// A change of the address settings is made on the adapter that the editor was opened for, where
/// the settings are in order, nothing else is under way and that adapter is still there.
pub proof fn law_what_a_wish_to_change_brings(
    state: SharedView,
    parsed: Result<Setting, Seq<char>>,
    adapters: Seq<AdapterInfo>,
)
    ensures
        ({
            let t = change_requested(state, parsed, adapters);
            let busy = state.active || state.quitting || state.network_busy;
            let ready = parsed is Ok && !busy && state.edit_adapter is Some;
            let there = exists|i: int|
                0 <= i < adapters.len() && adapter::same_adapter(
                    #[trigger] adapters[i]@,
                    state.edit_adapter->0,
                );
            &&& parsed matches Err(message) ==> t.state == state && t.effects == seq![
                EffectView::NetworkMessage(message),
            ]
            &&& parsed is Ok && (busy || state.edit_adapter is None) ==> t.state == state
                && t.effects.len() == 0
            &&& ready && !there ==> t.state == state && t.effects == seq![
                EffectView::NetworkMessage("网卡已变化，请返回后重新打开网络设置"@),
            ]
            &&& ready && there ==> t.state == (SharedView { network_busy: true, ..state })
                && t.effects == seq![
                EffectView::NetworkBusy(true),
                EffectView::NetworkMessage("等待管理员授权与应用结果…"@),
                EffectView::Apply {
                    config: parsed->Ok_0,
                    adapter_name: state.edit_adapter->0.friendly_name,
                },
            ]
        }),
{
}

/// When a change is over, the editor is free again and shows what came of it; a wish to quit that
/// waited for it is granted.
pub proof fn law_what_the_end_of_a_change_brings(
    state: SharedView,
    result: Result<(), Seq<char>>,
)
    ensures
        ({
            let t = change_finished(state, result);
            &&& t.state == (SharedView { network_busy: false, ..state })
            &&& t.effects[0] == EffectView::NetworkBusy(false)
            &&& result is Ok ==> t.effects[1] == EffectView::NetworkMessage(
                "IPv4 设置已应用，可返回主界面连接"@,
            )
            &&& result matches Err(message) ==> t.effects[1] == EffectView::NetworkMessage(message)
            &&& state.quitting ==> t.effects.len() == 3 && t.effects[2] == EffectView::Quit
            &&& !state.quitting ==> t.effects.len() == 2
        }),
{
}

/// Closing the window hides it or leaves it to end, as the box says, and that is kept. A plan to
/// hide is dropped either way; saving the box alone drops it only where the box is not ticked.
pub proof fn law_what_closing_the_window_brings(state: SharedView, minimize: bool)
    ensures
        ({
            let t = close_requested(state, minimize);
            &&& t.state == (SharedView { minimize_to_tray: minimize, hide_at: None, ..state })
            &&& minimize ==> t.effects == seq![
                EffectView::Record("关闭窗口：按设置最小化到托盘"@),
                EffectView::Tooltip(panel::tooltip_of("已最小化到托盘"@)),
                EffectView::HideWindow,
            ]
            &&& !minimize ==> t.effects == seq![
                EffectView::Record("关闭窗口：按设置直接退出"@),
            ]
        }),
        option_saved(state, true) == (SharedView { minimize_to_tray: true, ..state }),
        option_saved(state, false) == (SharedView {
            minimize_to_tray: false,
            hide_at: None,
            ..state
        }),
{
}

/// Of the reports of a session only a login that succeeded changes the client: it is online from
/// that moment, and the window hides three seconds later where the option says so.
pub proof fn law_what_a_report_brings(state: SharedView, event: EventView, now_ms: u64)
    ensures
        ({
            let t = reported(state, event, now_ms);
            let online = event == EventView::Phase(SessionPhase::Online);
            &&& !online ==> t.state == state
            &&& online ==> t.state == (SharedView {
                connected_since: Some(now_ms),
                hide_at: if state.minimize_to_tray {
                    Some(later(now_ms, 3000))
                } else {
                    None
                },
                ..state
            }) && t.effects == seq![
                EffectView::Record("认证成功，进入保活"@),
                EffectView::Connection {
                    state: ConnectionState::Connected,
                    detail: "认证成功，正在保活"@,
                },
                EffectView::Duration("0 秒"@),
                EffectView::Tooltip(
                    panel::tooltip_of(
                        if state.minimize_to_tray {
                            "已连接，稍后最小化到托盘"@
                        } else {
                            "已连接，保活中"@
                        },
                    ),
                ),
            ]
            &&& event matches EventView::Note(note) ==> t.effects == seq![
                EffectView::Record(note),
                EffectView::Status(note),
            ]
            &&& event == EventView::Phase(SessionPhase::Challenge) ==> t.effects == seq![
                EffectView::Connection {
                    state: ConnectionState::Connecting,
                    detail: "正在请求挑战…"@,
                },
            ]
            &&& event == EventView::Phase(SessionPhase::Authenticating) ==> t.effects == seq![
                EffectView::Connection {
                    state: ConnectionState::Connecting,
                    detail: "正在认证…"@,
                },
            ]
            &&& event == EventView::Phase(SessionPhase::KeepAlive) ==> t.effects == seq![
                EffectView::Connection {
                    state: ConnectionState::Connected,
                    detail: "保活中"@,
                },
            ]
            &&& event == EventView::Phase(SessionPhase::LoggedOut) ==> t.effects == seq![
                EffectView::Record("已发送下线报文"@),
                EffectView::Connection {
                    state: ConnectionState::Disconnected,
                    detail: "已下线"@,
                },
            ]
        }),
{
}

/// A round of the keep-alive is told by its number, and with the time online where that is known.
pub proof fn law_what_a_round_brings(
    state: SharedView,
    sequence: u8,
    tail: Seq<u8>,
    now_ms: u64,
)
    ensures
        ({
            let t = reported(state, EventView::KeepAliveCycle { sequence, tail }, now_ms);
            let words = "保活正常，序号 "@ + text::decimal(sequence as nat);
            &&& t.effects[0] == EffectView::Record(words)
            &&& t.effects[1] == EffectView::Status(words)
            &&& state.connected_since is None ==> t.effects.len() == 2
            &&& state.connected_since matches Some(since) ==> t.effects.len() == 3 && t.effects[2]
                == EffectView::Duration(panel::duration_text(seconds_between(since, now_ms)))
        }),
{
}

/// When the last session is over, the client is offline and idle, and says why; a wish to quit that
/// waited for it is granted.
pub proof fn law_what_the_end_of_a_session_brings(state: SharedView, detail: Seq<char>)
    ensures
        ({
            let t = finished(state, detail);
            &&& t.state == (SharedView {
                active: false,
                connected_since: None,
                hide_at: None,
                ..state
            })
            &&& t.effects[0] == EffectView::Duration("--"@)
            &&& t.effects[1] == EffectView::Record("会话结束："@ + detail)
            &&& t.effects[2] == EffectView::Tooltip(panel::tooltip_of(detail))
            &&& t.effects[3] == (EffectView::Connection {
                state: ConnectionState::Disconnected,
                detail,
            })
            &&& state.quitting ==> t.effects.len() == 5 && t.effects[4] == EffectView::Quit
            &&& !state.quitting ==> t.effects.len() == 4
        }),
{
}

/// A session that ended in order, or because it was stopped, is told as logged out; any other end
/// is told by its reason.
pub proof fn law_how_an_end_is_told(result: Result<(), ErrorView>, converted: Seq<u16>)
    ensures
        result is Ok ==> ending(result, converted) == "已下线"@,
        result matches Err(error) ==> {
            &&& error is Stopped ==> ending(result, converted) == "已下线"@
            &&& !(error is Stopped) ==> ending(result, converted) == reconnect::failure_text(
                error,
                converted,
            )
        },
{
}

/// Another session follows where the user wants that, has not stopped the client, and the last one
/// ended for a reason that may pass. A session that held for a minute starts the delays over.
pub proof fn law_when_another_session_follows(
    result: Result<(), ErrorView>,
    auto_reconnect: bool,
    stopped: bool,
    next: nat,
    lasted_ms: u64,
)
    ensures
        result is Ok ==> !goes_on(result, auto_reconnect, stopped),
        !auto_reconnect || stopped ==> !goes_on(result, auto_reconnect, stopped),
        auto_reconnect && !stopped && result is Err ==> (goes_on(result, auto_reconnect, stopped)
            <==> reconnect::recoverable(result->Err_0)),
        lasted_ms >= 60_000 ==> delay_after(next, lasted_ms) == 5,
        lasted_ms < 60_000 ==> delay_after(next, lasted_ms) == next,
{
}

/// Between two sessions the client is offline, still active, and says why and for how long.
pub proof fn law_what_a_wait_between_sessions_brings(
    state: SharedView,
    error: ErrorView,
    converted: Seq<u16>,
    delay: nat,
)
    ensures
        ({
            let t = interrupted(state, error, converted, delay);
            let reason = reconnect::failure_text(error, converted);
            let seconds = text::decimal(delay);
            &&& t.state == (SharedView { connected_since: None, hide_at: None, ..state })
            &&& t.effects == seq![
                EffectView::Record("连接中断："@ + reason + "；"@ + seconds + " 秒后重试"@),
                EffectView::Connection {
                    state: ConnectionState::Reconnecting,
                    detail: "连接中断，"@ + seconds + " 秒后重新认证…"@,
                },
                EffectView::Tooltip(panel::tooltip_of(reason + "，"@ + seconds + " 秒后重试"@)),
                EffectView::Duration("--"@),
            ]
        }),
{
}

/// A session starts where none runs and the program is not to quit, an account and a password are
/// given, and there is a server and an adapter. The first of these that is missing is named; blanks
/// are no account, but they are a password.
pub proof fn law_what_a_session_needs(
    state: SharedView,
    username: Seq<char>,
    password: Seq<char>,
    servers: Seq<Ipv4Addr>,
    adapter_found: bool,
)
    ensures
        ({
            let refusal = start_refusal(state, username, password, servers, adapter_found);
            let free = !state.active && !state.quitting;
            let named = text::trimmed(username).len() > 0 && password.len() > 0;
            &&& refusal is None <==> (free && named && servers.len() > 0 && adapter_found)
            &&& !free ==> refusal == Some(EffectView::Status("连接已在进行中"@))
            &&& free && !named ==> refusal == Some(EffectView::Status("请先填写账号和密码"@))
            &&& free && named && servers.len() == 0 ==> refusal == Some(
                EffectView::Connection {
                    state: ConnectionState::Disconnected,
                    detail: "没有可用的认证服务器地址"@,
                },
            )
            &&& free && named && servers.len() > 0 && !adapter_found ==> refusal == Some(
                EffectView::Connection {
                    state: ConnectionState::Disconnected,
                    detail: "未检测到可用的物理网卡，已在设置中排除虚拟网卡"@,
                },
            )
        }),
{
}

/// A session that begins is active and not online yet; the log names the adapter, its address and
/// the servers.
pub proof fn law_what_the_beginning_of_a_session_brings(
    state: SharedView,
    found: AdapterView,
    servers: Seq<Ipv4Addr>,
)
    ensures
        ({
            let t = started(state, found, servers);
            &&& t.state == (SharedView {
                active: true,
                connected_since: None,
                pending_auto: None,
                ..state
            })
            &&& t.effects == seq![
                EffectView::Record(
                    "开始认证：网卡 "@ + found.friendly_name + "（"@ + found.description + "，"@
                        + net::ipv4_text(found.ipv4) + "），服务器 "@ + text::joined(
                        net::ipv4_texts(servers),
                        ", "@,
                    ),
                ),
                EffectView::Connection {
                    state: ConnectionState::Connecting,
                    detail: "正在请求挑战…"@,
                },
            ]
        }),
{
}

/// The form shows saved credentials where there are any, else those of the file, else none.
pub proof fn law_which_credentials_are_shown(settings: ConfigView, loaded: Option<Preferences>)
    ensures
        ({
            let shown = shown_credentials(settings, loaded);
            let saved = loaded is Some && loaded->0.username@.len() > 0;
            &&& saved ==> shown == Some((loaded->0.username@, loaded->0.password@))
            &&& !saved && settings.account.len() > 0 ==> shown == Some(
                (settings.account, settings.password),
            )
            &&& !saved && settings.account.len() == 0 ==> shown is None
        }),
{
}

/// What is said of the saved settings: first whether the registration could be read, then whether
/// the settings could.
pub proof fn law_what_is_said_of_the_settings(
    loaded: Option<Preferences>,
    autostart: Option<bool>,
)
    ensures
        ({
            let said = settings_status(loaded, autostart);
            &&& autostart is None ==> said == Some("无法读取开机启动状态"@)
            &&& autostart is Some && loaded is None ==> said == Some("读取失败，请重新保存账号"@)
            &&& autostart is Some && loaded is Some && loaded->0.username@.len() > 0 ==> said
                == Some("已加载加密设置"@)
            &&& autostart is Some && loaded is Some && loaded->0.username@.len() == 0 ==> said
                is None
        }),
{
}

/// A start plans a login, for a minute and a half, where the settings are in order, a login was
/// asked for, and both an account and a password were saved. Whatever else was saved, only the box
/// for the tray counts.
pub proof fn law_what_a_start_plans(
    complaint: bool,
    loaded: Option<Preferences>,
    now_ms: u64,
)
    ensures
        ({
            let state = attached(complaint, loaded, now_ms);
            let planned = !complaint && loaded is Some && loaded->0.auto_login
                && loaded->0.username@.len() > 0 && loaded->0.password@.len() > 0;
            &&& state.pending_auto is Some <==> planned
            &&& planned ==> state.pending_auto->0.username == loaded->0.username@
                && state.pending_auto->0.password == loaded->0.password@
                && state.pending_auto->0.auto_reconnect == loaded->0.auto_reconnect
                && state.pending_auto->0.deadline_ms == later(now_ms, 90_000)
            &&& loaded is Some ==> state.minimize_to_tray == loaded->0.minimize_to_tray
            &&& loaded is None ==> state.minimize_to_tray
            &&& state == (SharedView {
                pending_auto: state.pending_auto,
                minimize_to_tray: state.minimize_to_tray,
                ..fresh()
            })
        }),
{
}

/// A session uses the first adapter with the configured address, or, where none is configured, the
/// best one; it uses none only where there is none.
pub proof fn law_which_adapter_a_session_uses(
    adapters: Seq<AdapterInfo>,
    local_ip: Option<Ipv4Addr>,
    route: Option<u32>,
    chosen: Option<usize>,
    other: int,
)
    requires
        is_chosen(adapters, local_ip, route, chosen),
        0 <= other < adapters.len(),
    ensures
        local_ip matches Some(address) ==> {
            &&& adapters[other].ipv4 == address ==> chosen is Some && chosen->0 <= other
            &&& chosen is Some ==> chosen->0 < adapters.len() && adapters[chosen->0 as int].ipv4
                == address
        },
        local_ip is None ==> chosen is Some && chosen->0 < adapters.len() && adapter::score_of(
            adapters[other]@,
            route,
        ) <= adapter::score_of(adapters[chosen->0 as int]@, route),
{
}

/// What the file sets counts, what it does not set stays, and nothing else changes.
pub proof fn law_what_the_file_sets(
    before: SessionConfig,
    settings: ConfigView,
    after: SessionConfig,
)
    requires
        settings_applied(before, settings, after),
    ensures
        settings.local_ip matches Some(address) ==> after.local_ipv4 == address,
        settings.local_ip is None ==> after.local_ipv4 == before.local_ipv4,
        settings.mac matches Some(mac) ==> after.mac == mac,
        settings.mac is None ==> after.mac == before.mac,
        settings.hostname matches Some(name) ==> after.hostname@ == vstd::utf8::encode_utf8(name),
        settings.hostname is None ==> after.hostname@ == before.hostname@,
        settings.dns matches Some(dns) ==> after.primary_dns@ == seq![dns.a, dns.b, dns.c, dns.d],
        settings.dns is None ==> after.primary_dns@ == before.primary_dns@,
        settings.dhcp matches Some(dhcp) ==> after.dhcp_server@ == seq![
            dhcp.a,
            dhcp.b,
            dhcp.c,
            dhcp.d,
        ],
        settings.dhcp is None ==> after.dhcp_server@ == before.dhcp_server@,
        settings.server_port matches Some(port) ==> after.server_port == port,
        settings.server_port is None ==> after.server_port == before.server_port,
        settings.local_port matches Some(port) ==> after.local_port == port,
        settings.local_port is None ==> after.local_port == before.local_port,
        settings.auth_route matches Some(mode) ==> after.auth_route == mode,
        settings.auth_route is None ==> after.auth_route == before.auth_route,
        after.servers == before.servers && after.bind_ipv4 == before.bind_ipv4 && after.username
            == before.username && after.password == before.password,
        after.keepalive_retries == before.keepalive_retries && after.keepalive_interval_ms
            == before.keepalive_interval_ms && after.request_timeout_ms
            == before.request_timeout_ms,
        after.auth_version == before.auth_version && after.keepalive_version
            == before.keepalive_version && after.keepalive_checksum == before.keepalive_checksum,
        after.control_status == before.control_status && after.adapter_num == before.adapter_num
            && after.ip_dog == before.ip_dog && after.allow_loopback_server
            == before.allow_loopback_server,
{
}

/// A session of the window is configured by the form, without the blanks around the account, by the
/// adapter, and above both by the file.
pub proof fn law_how_a_session_is_configured(
    config: SessionConfig,
    settings: ConfigView,
    servers: Seq<Ipv4Addr>,
    blanks: Seq<char>,
    account: Seq<char>,
    password: Seq<char>,
    hostname: Seq<char>,
    found: AdapterView,
)
    requires
        text::all_spaces(blanks),
        text::is_bare(account),
        is_session_config(
            config,
            settings,
            servers,
            blanks + account + blanks,
            password,
            hostname,
            found,
        ),
    ensures
        config.servers@ == servers,
        config.username@ == vstd::utf8::encode_utf8(account),
        config.password@ == vstd::utf8::encode_utf8(password),
        settings.local_ip matches Some(address) ==> config.local_ipv4 == address,
        settings.local_ip is None ==> config.local_ipv4 == found.ipv4,
        settings.mac matches Some(mac) ==> config.mac == mac,
        settings.mac is None ==> config.mac == found.mac,
        settings.hostname matches Some(name) ==> config.hostname@ == vstd::utf8::encode_utf8(name),
        settings.hostname is None ==> config.hostname@ == vstd::utf8::encode_utf8(hostname),
        settings.dns is None ==> config.primary_dns@ == seq![10u8, 10, 10, 10],
        settings.dhcp is None ==> config.dhcp_server@ == seq![0u8, 0, 0, 0],
        settings.server_port is None ==> config.server_port == 61440,
        settings.local_port is None ==> config.local_port == 61440,
        settings.auth_route is None ==> config.auth_route is Off,
        config.bind_ipv4 is None && !config.allow_loopback_server,
        config.request_timeout_ms == 3000 && config.keepalive_interval_ms == 20000
            && config.keepalive_retries == 3,
{
    text::law_trimming_keeps_what_stands_between(blanks, account, blanks);
}

/// Choices without credentials can be saved as long as no automatic login is asked for. All others
/// need an account of at most 36 bytes, a password of at most sixteen and a server, and what is
/// missing is named in this order.
pub proof fn law_which_choices_can_be_saved(
    username: Seq<char>,
    password: Seq<char>,
    auto_login: bool,
    servers: Seq<Ipv4Addr>,
)
    ensures
        ({
            let refusal = objection(username, password, auto_login, servers);
            let nothing = !auto_login && username.len() == 0 && password.len() == 0;
            let account = vstd::utf8::encode_utf8(username).len();
            let secret = vstd::utf8::encode_utf8(password).len();
            &&& refusal is None <==> nothing || (username.len() > 0 && password.len() > 0 && account
                <= 36 && secret <= 16 && servers.len() > 0)
            &&& !nothing && username.len() == 0 ==> refusal == Some("缺少 account（账号）"@)
            &&& username.len() > 0 && password.len() == 0 ==> refusal == Some(
                "缺少 password（密码）"@,
            )
            &&& username.len() > 0 && password.len() > 0 && account <= 36 && secret <= 16
                && servers.len() == 0 ==> refusal == Some("缺少 auth_server（认证服务器）"@)
        }),
{
}

} // verus!
