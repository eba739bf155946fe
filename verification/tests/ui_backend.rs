use drcom_campus::adapter::{AdapterInfo, NetworkDetails};
use drcom_campus::config::ClientConfig;
use drcom_campus::net::Ipv4Addr;
use drcom_campus::panel::ConnectionState;
use drcom_campus::preferences::Preferences;
use drcom_campus::reconnect::ReconnectBackoff;
use drcom_campus::session::{SessionConfig, SessionError, SessionEvent, SessionPhase};
use drcom_campus::static_ipv4::Configuration;
use drcom_campus::ui_backend::{
    apply_settings, edited_preferences, probe_plan, probe_record, save_report,
    validate_preferences, Backend, Effect, Options, SaveOutcome, Shared,
};

fn adapter(last: u8, index: u32) -> AdapterInfo {
    AdapterInfo {
        friendly_name: "以太网".to_string(),
        description: "Realtek".to_string(),
        ipv4: Ipv4Addr::new(10, 100, 61, last),
        mac: 0x1122_3344_5566,
        is_wireless: false,
        has_gateway: true,
        interface_index: index,
        details: NetworkDetails::default(),
    }
}

fn backend() -> Backend {
    Backend {
        shared: Shared::default(),
        settings: ClientConfig::default(),
    }
}

fn running() -> Backend {
    let mut backend = backend();
    backend.shared.active = true;
    backend
}

fn connection(state: ConnectionState, detail: &str) -> Effect {
    Effect::Connection {
        state,
        detail: detail.to_string(),
    }
}

fn status(words: &str) -> Effect {
    Effect::Status(words.to_string())
}

fn record(words: &str) -> Effect {
    Effect::Record(words.to_string())
}

fn tooltip(words: &str) -> Effect {
    Effect::Tooltip(format!("DrCom 校园网助手 - {words}"))
}

fn saved(username: &str, password: &str, auto_login: bool) -> Preferences {
    Preferences {
        username: username.to_string(),
        password: password.to_string(),
        auto_login,
        auto_reconnect: true,
        minimize_to_tray: true,
    }
}

#[test]
fn automatic_login_requires_valid_saved_credentials() {
    let servers = vec![Ipv4Addr::new(10, 100, 61, 3)];
    assert!(validate_preferences(&Preferences::default(), servers.clone()).is_ok());
    let mut prefs = Preferences {
        auto_login: true,
        ..Default::default()
    };
    assert!(validate_preferences(&prefs, servers.clone()).is_err());
    prefs.username = "test-user".to_string();
    prefs.password = "test-pass".to_string();
    assert!(validate_preferences(&prefs, servers).is_ok());
}

#[test]
fn gui_applies_connection_configuration() {
    let mut session = SessionConfig::new(vec![], vec![], vec![]);
    let settings = ClientConfig {
        server_port: Some(6000),
        local_port: Some(0),
        dns: Some(Ipv4Addr::new(1, 1, 1, 1)),
        hostname: Some("TEST".to_string()),
        ..Default::default()
    };
    apply_settings(&mut session, &settings);
    assert_eq!(session.server_port, 6000);
    assert_eq!(session.local_port, 0);
    assert_eq!(session.primary_dns, [1, 1, 1, 1]);
    assert_eq!(session.hostname, b"TEST");
}

#[test]
fn closing_to_tray_is_on_by_default_like_the_c_sharp_client() {
    assert!(Shared::default().minimize_to_tray);
    assert!(Preferences::default().minimize_to_tray);
}

#[test]
fn a_start_plans_the_automatic_login() {
    let (backend, form) = Backend::attach(
        ClientConfig::default(),
        false,
        Some(saved("u", "p", true)),
        Some(true),
        1000,
    );
    let pending = backend.shared.pending_auto.unwrap();
    assert_eq!(pending.username, "u");
    assert_eq!(pending.deadline_ms, 91_000);
    assert_eq!(form.username.as_deref(), Some("u"));
    assert_eq!(form.config_status, Some("已加载加密设置"));
    assert_eq!(form.start_with_windows, Some(true));
}

#[test]
fn a_broken_file_or_missing_credentials_plan_nothing() {
    for (complaint, preferences) in [
        (true, saved("u", "p", true)),
        (false, saved("u", "", true)),
        (false, saved("", "p", true)),
        (false, saved("u", "p", false)),
    ] {
        let (backend, _) = Backend::attach(
            ClientConfig::default(),
            complaint,
            Some(preferences),
            Some(false),
            0,
        );
        assert_eq!(backend.shared.pending_auto, None);
    }
    let settings = ClientConfig {
        account: "file".to_string(),
        password: "secret".to_string(),
        ..Default::default()
    };
    let (backend, form) = Backend::attach(settings, false, None, None, 0);
    assert_eq!(backend.shared, Shared::default());
    assert_eq!(form.username.as_deref(), Some("file"));
    assert_eq!(form.config_status, Some("无法读取开机启动状态"));
    assert_eq!(form.options, None);
    let (_, form) = Backend::attach(ClientConfig::default(), false, None, Some(false), 0);
    assert_eq!(form.config_status, Some("读取失败，请重新保存账号"));
    assert_eq!(form.username, None);
}

#[test]
fn a_planned_login_waits_for_an_adapter() {
    let (mut backend, _) = Backend::attach(
        ClientConfig::default(),
        false,
        Some(saved("u", "p", true)),
        Some(true),
        0,
    );
    assert_eq!(backend.tick(90_000, true), vec![Effect::LookForAdapter]);
    assert_eq!(
        backend.adapter_looked(false),
        vec![connection(
            ConnectionState::WaitingForNetwork,
            "自动登录正在等待可用网卡…"
        )]
    );
    let mut late = backend.clone();
    assert_eq!(
        late.tick(90_001, true),
        vec![connection(
            ConnectionState::Disconnected,
            "自动登录等待网卡超时，请连接网络后手动连接"
        )]
    );
    assert_eq!(late.shared.pending_auto, None);
    assert_eq!(
        backend.adapter_looked(true),
        vec![Effect::Login {
            username: "u".to_string(),
            password: "p".to_string(),
            auto_reconnect: true,
        }]
    );
    assert_eq!(backend.shared.pending_auto, None);
    assert_eq!(backend.adapter_looked(true), vec![]);
}

#[test]
fn a_planned_login_can_be_called_off() {
    let (mut backend, _) = Backend::attach(
        ClientConfig::default(),
        false,
        Some(saved("u", "p", true)),
        Some(true),
        0,
    );
    assert_eq!(
        backend.stop(),
        vec![connection(ConnectionState::Disconnected, "已取消自动登录")]
    );
    assert_eq!(backend.stop(), vec![status("当前没有进行中的连接")]);
}

#[test]
fn a_login_hides_the_window_after_a_glance() {
    let mut backend = running();
    assert_eq!(
        backend.on_event(SessionEvent::Phase(SessionPhase::Online), 10_000),
        vec![
            record("认证成功，进入保活"),
            connection(ConnectionState::Connected, "认证成功，正在保活"),
            Effect::Duration("0 秒".to_string()),
            tooltip("已连接，稍后最小化到托盘"),
        ]
    );
    assert_eq!(
        backend.tick(12_999, true),
        vec![Effect::Duration("2 秒".to_string())]
    );
    assert_eq!(
        backend.tick(13_000, false),
        vec![tooltip("登录成功，已在托盘运行"), Effect::HideWindow]
    );
    assert_eq!(backend.tick(14_000, false), vec![]);

    let mut stays = running();
    stays.saved(false);
    stays.on_event(SessionEvent::Phase(SessionPhase::Online), 0);
    assert_eq!(stays.tick(60_000, false), vec![]);
}

#[test]
fn reports_are_shown_and_logged() {
    let mut backend = running();
    assert_eq!(
        backend.on_event(SessionEvent::Note("提示".to_string()), 0),
        vec![record("提示"), status("提示")]
    );
    let cycle = SessionEvent::KeepAliveCycle {
        sequence: 7,
        tail: [1, 2, 3, 4],
    };
    assert_eq!(
        backend.on_event(cycle.clone(), 0),
        vec![record("保活正常，序号 7"), status("保活正常，序号 7")]
    );
    backend.shared.connected_since = Some(0);
    assert_eq!(
        backend.on_event(cycle, 61_000).last(),
        Some(&Effect::Duration("1 分 01 秒".to_string()))
    );
    assert_eq!(
        backend.on_event(SessionEvent::Phase(SessionPhase::Challenge), 0),
        vec![connection(ConnectionState::Connecting, "正在请求挑战…")]
    );
    assert_eq!(
        backend.on_event(SessionEvent::Phase(SessionPhase::Authenticating), 0),
        vec![connection(ConnectionState::Connecting, "正在认证…")]
    );
    assert_eq!(
        backend.on_event(SessionEvent::Phase(SessionPhase::KeepAlive), 0),
        vec![connection(ConnectionState::Connected, "保活中")]
    );
    assert_eq!(
        backend.on_event(SessionEvent::Phase(SessionPhase::LoggedOut), 0),
        vec![
            record("已发送下线报文"),
            connection(ConnectionState::Disconnected, "已下线"),
        ]
    );
}

#[test]
fn quitting_waits_for_what_runs() {
    let mut idle = backend();
    assert_eq!(idle.quit(), vec![record("请求退出"), Effect::Quit]);

    let mut active = running();
    assert_eq!(
        active.quit(),
        vec![
            record("请求退出"),
            Effect::RequestStop,
            connection(ConnectionState::Disconnecting, "正在下线，完成后退出…"),
        ]
    );
    assert_eq!(
        active.finish(&Err(SessionError::Stopped), &[]).last(),
        Some(&Effect::Quit)
    );

    let mut busy = backend();
    busy.shared.network_busy = true;
    assert_eq!(
        busy.quit(),
        vec![record("请求退出"), status("等待网络设置操作完成后退出…")]
    );
    assert_eq!(
        busy.network_applied(Err("失败".to_string())),
        vec![
            Effect::NetworkBusy(false),
            Effect::NetworkMessage("失败".to_string()),
            Effect::Quit,
        ]
    );
    assert_eq!(busy.tick(0, true), vec![]);
    assert_eq!(busy.probe(), vec![]);
}

#[test]
fn closing_follows_the_option() {
    let mut backend = running();
    backend.shared.hide_at = Some(5);
    assert_eq!(
        backend.close_to_tray(true),
        vec![
            record("关闭窗口：按设置最小化到托盘"),
            tooltip("已最小化到托盘"),
            Effect::HideWindow,
        ]
    );
    assert_eq!(backend.shared.hide_at, None);
    assert_eq!(
        backend.close_to_tray(false),
        vec![record("关闭窗口：按设置直接退出")]
    );
    assert!(!backend.shared.minimize_to_tray);
}

#[test]
fn one_round_of_probes_runs_at_a_time() {
    let mut backend = backend();
    assert_eq!(backend.probe(), vec![Effect::ProbeBusy(true)]);
    assert_eq!(backend.probe(), vec![]);
    assert_eq!(backend.probe_finished(), vec![Effect::ProbeBusy(false)]);
    assert_eq!(backend.probe(), vec![Effect::ProbeBusy(true)]);
    let everything = probe_plan(2);
    assert!(everything.campus && everything.internet_v4 && everything.internet_v6);
    let campus = probe_plan(0);
    assert!(campus.campus && !campus.internet_v4 && !campus.internet_v6);
    let internet = probe_plan(1);
    assert!(!internet.campus && internet.internet_v4 && !internet.internet_v6);
    assert_eq!(probe_record("校内测试", "ICMP 可达"), "校内测试：ICMP 可达");
}

#[test]
fn the_network_editor_is_closed_while_a_session_runs() {
    let mut active = running();
    assert_eq!(active.open_network_editor(Some(adapter(20, 7))), vec![]);
    let mut backend = backend();
    assert_eq!(
        backend.open_network_editor(None),
        vec![status("未找到可配置的物理网卡")]
    );
    let effects = backend.open_network_editor(Some(adapter(20, 7)));
    assert!(matches!(&effects[0], Effect::OpenEditor(fields) if fields.ip == "10.100.61.20"));
    assert_eq!(backend.shared.edit_adapter, Some(adapter(20, 7)));
}

#[test]
fn settings_are_only_changed_on_the_adapter_that_was_opened() {
    let mut backend = backend();
    let apply = |backend: &mut Backend, ip: &str, adapters: &[AdapterInfo]| {
        backend.apply_network(ip, "255.255.255.0", "10.0.0.1", "1.1.1.1", adapters)
    };
    assert_eq!(
        apply(&mut backend, "x", &[]),
        vec![Effect::NetworkMessage("IPv4 地址 格式不正确".to_string())]
    );
    assert_eq!(apply(&mut backend, "10.0.0.8", &[adapter(20, 7)]), vec![]);
    backend.open_network_editor(Some(adapter(20, 7)));
    assert_eq!(
        apply(&mut backend, "10.0.0.8", &[adapter(20, 8)]),
        vec![Effect::NetworkMessage(
            "网卡已变化，请返回后重新打开网络设置".to_string()
        )]
    );
    let effects = apply(&mut backend, "10.0.0.8", &[adapter(21, 7)]);
    assert_eq!(effects[0], Effect::NetworkBusy(true));
    let config = Configuration::parse("10.0.0.8", "255.255.255.0", "10.0.0.1", "1.1.1.1").unwrap();
    assert_eq!(
        effects[2],
        Effect::Apply {
            config,
            adapter_name: "以太网".to_string(),
        }
    );
    assert_eq!(apply(&mut backend, "10.0.0.8", &[adapter(21, 7)]), vec![]);
    assert_eq!(
        backend.network_applied(Ok(())),
        vec![
            Effect::NetworkBusy(false),
            Effect::NetworkMessage("IPv4 设置已应用，可返回主界面连接".to_string()),
        ]
    );
}

#[test]
fn a_session_is_started_on_the_chosen_adapter() {
    let servers = [Ipv4Addr::new(10, 100, 61, 3), Ipv4Addr::new(10, 100, 61, 4)];
    let adapters = [adapter(20, 7), adapter(21, 8)];
    let mut backend = backend();
    let started = backend.start(" u ", "p", &servers, &adapters, Some(8), "PC");
    let launch = started.launch.unwrap();
    assert_eq!(launch.adapter, 1);
    assert_eq!(launch.config.servers, servers);
    assert_eq!(launch.config.username, b"u");
    assert_eq!(launch.config.password, b"p");
    assert_eq!(launch.config.local_ipv4, Ipv4Addr::new(10, 100, 61, 21));
    assert_eq!(launch.config.hostname, b"PC");
    assert_eq!(
        started.effects,
        vec![
            record("开始认证：网卡 以太网（Realtek，10.100.61.21），服务器 10.100.61.3, 10.100.61.4"),
            connection(ConnectionState::Connecting, "正在请求挑战…"),
        ]
    );
    let again = backend.start("u", "p", &servers, &adapters, None, "PC");
    assert_eq!(again.effects, vec![status("连接已在进行中")]);
    assert_eq!(again.launch, None);
}

#[test]
fn a_session_is_refused_with_its_reason() {
    let servers = [Ipv4Addr::new(10, 100, 61, 3)];
    let adapters = [adapter(20, 7)];
    let refusal = |username: &str, password: &str, servers: &[Ipv4Addr], adapters: &[AdapterInfo]| {
        backend()
            .start(username, password, servers, adapters, None, "PC")
            .effects
    };
    assert_eq!(
        refusal("  ", "p", &servers, &adapters),
        vec![status("请先填写账号和密码")]
    );
    assert_eq!(
        refusal("u", "", &servers, &adapters),
        vec![status("请先填写账号和密码")]
    );
    assert_eq!(
        refusal("u", "p", &[], &adapters),
        vec![connection(
            ConnectionState::Disconnected,
            "没有可用的认证服务器地址"
        )]
    );
    assert_eq!(
        refusal("u", "p", &servers, &[]),
        vec![connection(
            ConnectionState::Disconnected,
            "未检测到可用的物理网卡，已在设置中排除虚拟网卡"
        )]
    );
    let mut pinned = backend();
    pinned.settings.local_ip = Some(Ipv4Addr::new(10, 9, 9, 9));
    assert_eq!(
        pinned.start("u", "p", &servers, &adapters, None, "PC").launch,
        None
    );
}

#[test]
fn a_lost_session_is_taken_up_again() {
    let mut backend = running();
    let mut backoff = ReconnectBackoff::new();
    let lost = Err(SessionError::NoResponse("keepalive"));
    let ended = backend.session_ended(&mut backoff, &lost, &[], true, false, 0);
    assert_eq!(ended.retry_after, Some(5));
    assert_eq!(
        ended.effects[1],
        connection(ConnectionState::Reconnecting, "连接中断，5 秒后重新认证…")
    );
    assert_eq!(ended.effects[3], Effect::Duration("--".to_string()));
    assert!(backend.shared.active);
    let ended = backend.session_ended(&mut backoff, &lost, &[], true, false, 0);
    assert_eq!(ended.retry_after, Some(10));
    let ended = backend.session_ended(&mut backoff, &lost, &[], true, false, 60_000);
    assert_eq!(ended.retry_after, Some(5));
}

#[test]
fn a_session_that_was_refused_or_stopped_is_over() {
    for (result, auto_reconnect, stopped) in [
        (Err(SessionError::NoResponse("keepalive")), false, false),
        (Err(SessionError::NoResponse("keepalive")), true, true),
        (Err(SessionError::Challenge("x")), true, false),
        (Ok(()), true, false),
    ] {
        let mut backend = running();
        let mut backoff = ReconnectBackoff::new();
        let ended =
            backend.session_ended(&mut backoff, &result, &[], auto_reconnect, stopped, 0);
        assert_eq!(ended.retry_after, None);
        assert!(!backend.shared.active);
        assert_eq!(backoff.next_delay(), 5);
    }
    let mut backend = running();
    assert_eq!(
        backend.finish(&Ok(()), &[]),
        vec![
            Effect::Duration("--".to_string()),
            record("会话结束：已下线"),
            tooltip("已下线"),
            connection(ConnectionState::Disconnected, "已下线"),
        ]
    );
}

#[test]
fn the_next_session_follows_the_adapter() {
    let mut config = SessionConfig::new(vec![], vec![], vec![]);
    let mut backend = backend();
    backend.rebind(&mut config, &adapter(22, 7));
    assert_eq!(config.local_ipv4, Ipv4Addr::new(10, 100, 61, 22));
    assert_eq!(config.mac, 0x1122_3344_5566);
    backend.settings.mac = Some(5);
    backend.rebind(&mut config, &adapter(23, 7));
    assert_eq!(config.local_ipv4, Ipv4Addr::new(10, 100, 61, 23));
    assert_eq!(config.mac, 5);
}

#[test]
fn saving_tells_how_far_it_got() {
    let edited = edited_preferences(
        " u ",
        " p ",
        Options {
            auto_login: true,
            auto_reconnect: false,
            minimize_to_tray: false,
        },
    );
    assert_eq!(edited.username, "u");
    assert_eq!(edited.password, " p ");
    assert!(edited.auto_login && !edited.auto_reconnect && !edited.minimize_to_tray);
    let report = save_report(SaveOutcome::Saved);
    assert_eq!(report.config_status, "已加密保存");
    assert_eq!(report.status, "设置已保存（自动登录在下次启动时生效）");
    for (outcome, words) in [
        (SaveOutcome::Refused("r".to_string()), "r"),
        (SaveOutcome::NotWritten("r".to_string()), "保存失败：r"),
        (
            SaveOutcome::NotRegistered("r".to_string()),
            "账号已保存，但开机启动设置失败：r",
        ),
    ] {
        let report = save_report(outcome);
        assert_eq!(report.config_status, "保存未完成");
        assert_eq!(report.status, words);
    }
}
