use drcom_campus::adapter::{is_link_local, AdapterInfo, NetworkDetails};
use drcom_campus::event_log::LocalTime;
use drcom_campus::net::{ip_string, IpAddr, Ipv4Addr, Ipv6Addr};
use drcom_campus::panel::{
    addresses, diagnostics_report, editor_fields, format_duration, format_mac, host_name,
    ipv6_display, load_complaint, refresh_adapter, startup_record, tooltip_text, ConnectionState,
    ReportFields,
};

fn v6(segments: [u16; 8]) -> IpAddr {
    IpAddr::V6(Ipv6Addr { segments })
}

fn adapter() -> AdapterInfo {
    AdapterInfo {
        friendly_name: "以太网".to_string(),
        description: "Realtek".to_string(),
        ipv4: Ipv4Addr::new(10, 100, 61, 20),
        mac: 0x0011_2233_44ff,
        is_wireless: false,
        has_gateway: true,
        interface_index: 7,
        details: NetworkDetails {
            subnet_mask: Some(Ipv4Addr::new(255, 255, 255, 0)),
            ipv6: vec![],
            gateways: vec![
                v6([0xfe80, 0, 0, 0, 0, 0, 0, 1]),
                IpAddr::V4(Ipv4Addr::new(10, 100, 61, 254)),
            ],
            dns: vec![],
        },
    }
}

#[test]
fn ipv6_display_hides_link_local_addresses_but_says_they_are_all_there_is() {
    let global = v6([0x2001, 0xda8, 0xb000, 0x6703, 0x928f, 0xa777, 0xf63e, 0xd0ee]);
    let temporary = v6([0x2001, 0xda8, 0xb000, 0x6703, 0x8493, 0x26f, 0x45f9, 0x7dfd]);
    let link_local = v6([0xfe80, 0, 0, 0, 0x60f6, 0x408e, 0xea0a, 0x8690]);
    assert_eq!(ip_string(global), "2001:da8:b000:6703:928f:a777:f63e:d0ee");

    assert_eq!(ipv6_display(&[global, link_local]), ip_string(global));
    assert_eq!(
        ipv6_display(&[global, temporary, link_local]),
        format!("{} 等 2 个", ip_string(global))
    );
    let text = ipv6_display(&[link_local]);
    assert!(text.contains("仅链路本地"), "got {text}");
    assert!(
        text.contains("无法"),
        "the verdict must be explicit: {text}"
    );
    assert_eq!(ipv6_display(&[]), "--");
    assert!(is_link_local(&v6([0xfe80, 0, 0, 0, 0, 0, 0, 1])));
    assert!(is_link_local(&v6([0xfebf, 0, 0, 0, 0, 0, 0, 1])));
    assert!(!is_link_local(&v6([0xfec0, 0, 0, 0, 0, 0, 0, 1])));
    assert!(!is_link_local(&v6([0x2001, 0xda8, 0, 0, 0, 0, 0, 1])));
}

#[test]
fn durations_grow_through_their_units() {
    assert_eq!(format_duration(0), "0 秒");
    assert_eq!(format_duration(59), "59 秒");
    assert_eq!(format_duration(60), "1 分 00 秒");
    assert_eq!(format_duration(3599), "59 分 59 秒");
    assert_eq!(format_duration(3600), "1 时 00 分");
    assert_eq!(format_duration(90_061), "25 时 01 分");
}

#[test]
fn hardware_addresses_have_six_octets() {
    assert_eq!(format_mac(0x0011_2233_44ff), "00:11:22:33:44:FF");
    assert_eq!(format_mac(0xffff_aabb_ccdd_eeff), "AA:BB:CC:DD:EE:FF");
}

#[test]
fn a_long_note_is_cut_for_the_tray() {
    assert_eq!(tooltip_text("已连接"), "DrCom 校园网助手 - 已连接");
    let long = "网".repeat(60);
    assert_eq!(
        tooltip_text(&long),
        format!("DrCom 校园网助手 - {}", "网".repeat(48))
    );
}

#[test]
fn only_a_connection_is_online() {
    for (state, text, online, active) in [
        (ConnectionState::Disconnected, "未连接", false, false),
        (ConnectionState::WaitingForNetwork, "等待网络", false, true),
        (ConnectionState::Connecting, "连接中", false, true),
        (ConnectionState::Connected, "已连接", true, true),
        (ConnectionState::Reconnecting, "重连中", false, true),
        (ConnectionState::Disconnecting, "断开中", false, true),
    ] {
        assert_eq!(state.to_text(), text);
        assert_eq!(state.online(), online);
        assert_eq!(state.session_active(), active);
    }
}

#[test]
fn the_panel_shows_the_adapter_or_its_absence() {
    let found = adapter();
    let shown = refresh_adapter(Some(&found), None);
    assert_eq!(shown.name, "以太网");
    assert_eq!(shown.ipv4, "10.100.61.20");
    assert_eq!(shown.mac, "00:11:22:33:44:FF");
    assert_eq!(shown.gateway, "fe80::1, 10.100.61.254");
    assert_eq!(shown.dns, "--");
    assert_eq!(shown.status, "网卡 Realtek 已就绪");
    assert_eq!(refresh_adapter(Some(&found), Some("x")).status, "x");
    let missing = refresh_adapter(None, None);
    assert_eq!(missing.name, "未检测到物理网卡");
    assert_eq!(missing.ipv6, "--");
    assert_eq!(addresses(&[]), "--");
}

#[test]
fn the_editor_starts_with_the_ipv4_settings() {
    let fields = editor_fields(&adapter());
    assert_eq!(fields.adapter_name, "以太网");
    assert_eq!(fields.ip, "10.100.61.20");
    assert_eq!(fields.mask, "255.255.255.0");
    assert_eq!(fields.gateway, "10.100.61.254");
    assert_eq!(fields.dns, "");
}

#[test]
fn the_report_is_complete() {
    let now = LocalTime {
        year: 2026,
        month: 9,
        day: 5,
        hour: 8,
        minute: 3,
        second: 7,
    };
    let fields = ReportFields {
        connection_state: "已连接".to_string(),
        adapter_name: "以太网".to_string(),
        ipv4: "10.0.0.8".to_string(),
        mac: "M".to_string(),
        gateway: "G".to_string(),
        dns: "D".to_string(),
        ipv6: "--".to_string(),
        duration: "5 秒".to_string(),
        campus: "C".to_string(),
        internet_v4: "4".to_string(),
        internet_v6: "6".to_string(),
        minimize_to_tray: true,
    };
    assert_eq!(
        diagnostics_report("0.1.0", now, &fields, None, ""),
        "DrCom Rust 0.1.0\n导出时间：2026-09-05 08:03:07\n状态：已连接\n网卡：以太网\n\
         IPv4：10.0.0.8\nMAC：M\n网关：G\nDNS：D\nIPv6：--\n在线时长：5 秒\n校内：C\n\
         公网 IPv4：4\n公网 IPv6：6\n关闭窗口最小化到托盘：是\n\
         探测使用系统路由，不等同于认证状态。\n\n\
         认证服务器：无配置文件（使用内置认证服务器）\n最近日志：\n（本次运行还没有日志）"
    );
    let report = diagnostics_report("0.1.0", now, &fields, Some("drcom.ini"), "[t] x");
    assert!(report.ends_with("认证服务器：drcom.ini\n最近日志：\n[t] x"));
}

#[test]
fn a_machine_always_has_a_name() {
    assert_eq!(host_name(Some("PC"), Some("other")), "PC");
    assert_eq!(host_name(None, Some("other")), "other");
    assert_eq!(host_name(None, None), "DRCOM-PC");
    assert_eq!(
        load_complaint("a.ini", "第 2 行：x"),
        "配置文件 a.ini 未生效：第 2 行：x"
    );
    assert_eq!(
        startup_record("0.1.0", None),
        "启动 DrCom Rust 0.1.0，配置文件：无（使用内置认证服务器）"
    );
    assert_eq!(
        startup_record("0.1.0", Some("a.ini")),
        "启动 DrCom Rust 0.1.0，配置文件：a.ini"
    );
}
