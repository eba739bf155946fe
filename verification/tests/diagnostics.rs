use drcom_campus::adapter::{AdapterInfo, NetworkDetails};
use drcom_campus::diagnostics::{
    campus_arguments, campus_probe, export, export_name, internet_probe, internet_result,
    local_ipv6_state, probe_host, tcp_probe, Attempt, Echo, Family, Probe, PUBLIC_V4_HOST,
    PUBLIC_V6_HOST,
};
use drcom_campus::event_log::LocalTime;
use drcom_campus::net::{IpAddr, Ipv4Addr, Ipv6Addr};

fn v4() -> IpAddr {
    IpAddr::V4(Ipv4Addr::new(110, 242, 68, 66))
}

fn v6(first: u16) -> IpAddr {
    IpAddr::V6(Ipv6Addr {
        segments: [first, 0, 0, 0, 0, 0, 0, 1],
    })
}

fn adapter(ipv6: Vec<IpAddr>) -> AdapterInfo {
    AdapterInfo {
        friendly_name: "以太网".to_string(),
        description: "Realtek".to_string(),
        ipv4: Ipv4Addr::new(10, 100, 61, 20),
        mac: 1,
        is_wireless: false,
        has_gateway: true,
        interface_index: 7,
        details: NetworkDetails {
            subnet_mask: None,
            ipv6,
            gateways: vec![],
            dns: vec![],
        },
    }
}

#[test]
fn the_public_probes_never_point_at_targets_blocked_inside_china() {
    for host in [PUBLIC_V4_HOST, PUBLIC_V6_HOST] {
        for banned in ["1.1.1.1", "8.8.8.8", "2606:4700", "cloudflare", "google"] {
            assert!(
                !host.contains(banned),
                "{host} is unreachable from mainland China and cannot be a probe target"
            );
        }
        assert!(
            host.ends_with(".com") || host.ends_with(".cn"),
            "{host} should be a resolvable public name"
        );
    }
    assert_ne!(PUBLIC_V4_HOST, PUBLIC_V6_HOST);
    assert_eq!(probe_host(Family::V4), PUBLIC_V4_HOST);
    assert_eq!(probe_host(Family::V6), PUBLIC_V6_HOST);
}

#[test]
fn internet_probe_always_returns_something_the_user_can_read() {
    let readable = |family: Family, text: String| {
        assert!(!text.is_empty(), "{family:?} produced nothing");
        assert!(
            text.contains('·') || text.contains("记录"),
            "{family:?} produced an unreadable result: {text}"
        );
    };
    let failed = Attempt::Failed("TimedOut".to_string());
    let connected = Attempt::Connected { elapsed_ms: 12 };
    for family in [Family::V4, Family::V6] {
        match internet_probe(family, Err("NotFound")) {
            Probe::Finished(text) => readable(family, text),
            other => panic!("{other:?}"),
        }
        match internet_probe(family, Ok(&[])) {
            Probe::Finished(text) => readable(family, text),
            other => panic!("{other:?}"),
        }
        for attempt in [&failed, &connected] {
            readable(family, internet_result(family, v4(), attempt, &[]));
        }
    }
}

#[test]
fn a_probe_connects_to_the_first_address_of_its_family() {
    let addresses = [v4(), v6(0x2001), v4(), v6(0x2002)];
    assert_eq!(internet_probe(Family::V4, Ok(&addresses)), Probe::Connect(0));
    assert_eq!(internet_probe(Family::V6, Ok(&addresses)), Probe::Connect(1));
    assert_eq!(
        internet_probe(Family::V6, Ok(&addresses[..1])),
        Probe::Finished("该域名没有 IPv6 记录".to_string())
    );
    assert_eq!(
        internet_probe(Family::V4, Ok(&addresses[1..2])),
        Probe::Finished("该域名没有 IPv4 记录".to_string())
    );
    assert_eq!(
        internet_probe(Family::V4, Err("NotFound")),
        Probe::Finished("域名解析失败 · NotFound".to_string())
    );
}

#[test]
fn results_name_the_address() {
    let connected = Attempt::Connected { elapsed_ms: 12 };
    assert_eq!(
        tcp_probe(v4(), &connected),
        "可达 · 110.242.68.66 · 12 ms"
    );
    let failed = Attempt::Failed("TimedOut".to_string());
    assert_eq!(
        internet_result(Family::V4, v4(), &failed, &[]),
        "未连通 · 110.242.68.66 · TimedOut"
    );
    assert_eq!(
        internet_result(Family::V6, v6(0x2001), &failed, &[]),
        "未连通 · 2001::1 · TimedOut ｜ 本机没有 IPv6 地址"
    );
    assert_eq!(
        internet_result(Family::V6, v6(0x2001), &connected, &[]),
        "可达 · 2001::1 · 12 ms"
    );
}

#[test]
fn the_state_of_this_machine_is_told_with_a_failure() {
    assert_eq!(local_ipv6_state(&[]), "本机没有 IPv6 地址");
    assert_eq!(
        local_ipv6_state(&[adapter(vec![]), adapter(vec![v6(0xfe80)])]),
        "本机只有链路本地 IPv6 地址"
    );
    assert_eq!(
        local_ipv6_state(&[adapter(vec![v6(0xfe80), v6(0x2001)]), adapter(vec![v6(0x2002)])]),
        "本机有 2 个全局 IPv6 地址"
    );
}

#[test]
fn an_echo_is_told() {
    assert_eq!(
        campus_arguments(Ipv4Addr::new(10, 100, 61, 3)),
        vec!["-4", "-n", "1", "-w", "2000", "10.100.61.3"]
    );
    assert_eq!(campus_probe(&Echo::Answered), "ICMP 可达");
    assert_eq!(
        campus_probe(&Echo::Silent),
        "ICMP 未响应（不代表认证不可用）"
    );
    assert_eq!(
        campus_probe(&Echo::NotMade("x".to_string())),
        "测试失败：x"
    );
}

#[test]
fn an_export_opens_in_an_editor() {
    let now = LocalTime {
        year: 2026,
        month: 9,
        day: 5,
        hour: 8,
        minute: 3,
        second: 7,
    };
    assert_eq!(export_name(now), "drcom-诊断-20260905-080307.txt");
    assert_eq!(export("状"), vec![0xef, 0xbb, 0xbf, 0xe7, 0x8a, 0xb6]);
}
