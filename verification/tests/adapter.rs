use drcom_campus::adapter::{
    find_by_address, global_ipv6_count, ip_from_socket, is_link_local, list, looks_virtual,
    mac_from_bytes, names_virtual_adapter, read_adapter, routable_addresses, score, select,
    select_for, still_present, subnet_mask, usable_ipv4, AdapterInfo, NetworkDetails, RawAdapter,
    RawUnicast,
};
use drcom_campus::net::{IpAddr, Ipv4Addr, Ipv6Addr};

fn v6(first: u16, last: u16) -> IpAddr {
    IpAddr::V6(Ipv6Addr {
        segments: [first, 0, 0, 0, 0, 0, 0, last],
    })
}

fn adapter(name: &str, ipv4: Ipv4Addr, is_wireless: bool, has_gateway: bool, index: u32) -> AdapterInfo {
    AdapterInfo {
        friendly_name: name.to_string(),
        description: "Realtek PCIe GbE Family Controller".to_string(),
        ipv4,
        mac: 0x1122_3344_5566,
        is_wireless,
        has_gateway,
        interface_index: index,
        details: NetworkDetails::default(),
    }
}

fn raw(name: &str, description: &str) -> RawAdapter {
    RawAdapter {
        oper_status: 1,
        if_type: 6,
        friendly_name: name.to_string(),
        description: description.to_string(),
        physical_address: vec![0x11, 0x22, 0x33, 0x44, 0x55, 0x66],
        unicast: vec![
            RawUnicast {
                address: Some(IpAddr::V4(Ipv4Addr::new(169, 254, 3, 4))),
                prefix: 16,
            },
            RawUnicast {
                address: Some(v6(0x2001, 1)),
                prefix: 64,
            },
            RawUnicast {
                address: Some(IpAddr::V4(Ipv4Addr::new(10, 100, 61, 20))),
                prefix: 24,
            },
        ],
        gateways: vec![Some(IpAddr::V4(Ipv4Addr::new(10, 100, 61, 254))), None],
        dns: vec![None, Some(IpAddr::V4(Ipv4Addr::new(10, 10, 10, 10)))],
        interface_index: 7,
    }
}

#[test]
fn virtual_adapters_are_rejected() {
    assert!(looks_virtual(
        "vEthernet (WSL)",
        "Hyper-V Virtual Ethernet Adapter"
    ));
    assert!(looks_virtual(
        "Ethernet 2",
        "VMware Virtual Ethernet Adapter for VMnet8"
    ));
    assert!(looks_virtual(
        "Local Area Connection",
        "TAP-Windows Adapter V9"
    ));
    assert!(looks_virtual(
        "Ethernet",
        "Sangfor SSL VPN CS Support System VNIC"
    ));
    assert!(!looks_virtual(
        "以太网",
        "Realtek PCIe GbE Family Controller"
    ));
    assert!(!looks_virtual("WLAN", "Intel(R) Wi-Fi 6 AX201 160MHz"));
}

#[test]
fn a_keyword_is_found_in_lower_case_only() {
    assert!(names_virtual_adapter("xx hyper-v yy"));
    assert!(!names_virtual_adapter("xx HYPER-V yy"));
    assert!(!names_virtual_adapter(""));
}

#[test]
fn mac_conversion_requires_six_non_zero_bytes() {
    assert_eq!(mac_from_bytes(&[0, 1, 2, 3, 4, 5]), Some(0x0001_0203_0405));
    assert_eq!(
        mac_from_bytes(&[0x11, 0x22, 0x88, 0x77, 0x66, 0x55]),
        Some(0x1122_8877_6655)
    );
    assert_eq!(mac_from_bytes(&[0; 6]), None, "all-zero MAC is not usable");
    assert_eq!(
        mac_from_bytes(&[0, 1, 2, 3]),
        None,
        "short MAC is not usable"
    );
}

#[test]
fn apipa_and_loopback_addresses_are_not_usable() {
    assert!(!usable_ipv4(Ipv4Addr::unspecified()));
    assert!(!usable_ipv4(Ipv4Addr::new(127, 0, 0, 1)));
    assert!(!usable_ipv4(Ipv4Addr::new(169, 254, 1, 1)));
    assert!(usable_ipv4(Ipv4Addr::new(10, 100, 61, 20)));
}

#[test]
fn ranking_prefers_wired_adapters_with_a_gateway() {
    let wired = AdapterInfo {
        friendly_name: "以太网".to_string(),
        description: "Realtek PCIe GbE Family Controller".to_string(),
        ipv4: Ipv4Addr::new(10, 100, 61, 20),
        mac: 0x1122_3344_5566,
        is_wireless: false,
        has_gateway: true,
        interface_index: 7,
        details: NetworkDetails::default(),
    };
    let wireless = AdapterInfo {
        friendly_name: "WLAN".to_string(),
        description: "Intel(R) Wi-Fi 6 AX201".to_string(),
        ipv4: Ipv4Addr::new(10, 100, 61, 21),
        mac: 0xaabb_ccdd_eeff,
        is_wireless: true,
        has_gateway: true,
        interface_index: 12,
        details: NetworkDetails::default(),
    };
    assert!(score(&wired, None) > score(&wireless, None));
    assert_eq!(score(&wired, None), 500);
    assert_eq!(score(&wireless, None), 300);
}

#[test]
fn the_route_the_os_would_use_beats_every_other_signal() {
    let preferred_wireless = AdapterInfo {
        friendly_name: "WLAN".to_string(),
        description: "Intel(R) Wi-Fi 6 AX201".to_string(),
        ipv4: Ipv4Addr::new(10, 100, 61, 21),
        mac: 0xaabb_ccdd_eeff,
        is_wireless: true,
        has_gateway: true,
        interface_index: 12,
        details: NetworkDetails::default(),
    };
    let idle_wired = AdapterInfo {
        friendly_name: "以太网 2".to_string(),
        description: "Realtek PCIe GbE Family Controller".to_string(),
        ipv4: Ipv4Addr::new(192, 168, 1, 20),
        mac: 0x1122_3344_5566,
        is_wireless: false,
        has_gateway: true,
        interface_index: 7,
        details: NetworkDetails::default(),
    };
    assert!(
        score(&preferred_wireless, Some(12)) > score(&idle_wired, None),
        "the adapter actually on the authentication path must win"
    );
    assert!(
        score(&idle_wired, Some(7)) > score(&preferred_wireless, None),
        "and the preference must follow the destination, not the media"
    );
    assert!(score(&idle_wired, None) > score(&preferred_wireless, None));
}

#[test]
fn enumeration_returns_only_usable_adapters() {
    let mut down = raw("以太网 3", "Realtek");
    down.oper_status = 2;
    let mut tunnel = raw("以太网 4", "Realtek");
    tunnel.if_type = 131;
    let mut silent = raw("以太网 5", "Realtek");
    silent.physical_address = vec![0; 6];
    let mut long = raw("以太网 6", "Realtek");
    long.physical_address = vec![1; 9];
    let mut unaddressed = raw("以太网 7", "Realtek");
    unaddressed.unicast = vec![];
    let reports = [
        raw("vEthernet (WSL)", "Hyper-V Virtual Ethernet Adapter"),
        raw("以太网", "Realtek PCIe GbE Family Controller"),
        down,
        tunnel,
        silent,
        long,
        unaddressed,
    ];
    let found = list(&reports);
    assert_eq!(found.len(), 1);
    for adapter in found {
        assert!(usable_ipv4(adapter.ipv4), "{adapter:?}");
        assert_ne!(adapter.mac, 0, "{adapter:?}");
        assert_ne!(adapter.interface_index, 0, "{adapter:?}");
        assert!(!looks_virtual(&adapter.friendly_name, &adapter.description));
    }
}

#[test]
fn an_adapter_is_read_with_its_first_usable_address() {
    let read = read_adapter(&raw("以太网", "Realtek")).unwrap();
    assert_eq!(read.friendly_name, "以太网");
    assert_eq!(read.ipv4, Ipv4Addr::new(10, 100, 61, 20));
    assert_eq!(read.mac, 0x1122_3344_5566);
    assert!(!read.is_wireless);
    assert!(read.has_gateway);
    assert_eq!(read.interface_index, 7);
    assert_eq!(
        read.details.subnet_mask,
        Some(Ipv4Addr::new(255, 255, 255, 0))
    );
    assert_eq!(read.details.ipv6, vec![v6(0x2001, 1)]);
    assert_eq!(
        read.details.gateways,
        vec![IpAddr::V4(Ipv4Addr::new(10, 100, 61, 254))]
    );
    assert_eq!(
        read.details.dns,
        vec![IpAddr::V4(Ipv4Addr::new(10, 10, 10, 10))]
    );
    let mut wireless = raw("WLAN", "Intel(R) Wi-Fi 6 AX201");
    wireless.if_type = 71;
    assert!(read_adapter(&wireless).unwrap().is_wireless);
}

#[test]
fn the_first_of_the_best_adapters_is_selected() {
    let adapters = [
        adapter("a", Ipv4Addr::new(10, 0, 0, 1), true, true, 1),
        adapter("b", Ipv4Addr::new(10, 0, 0, 2), false, true, 2),
        adapter("c", Ipv4Addr::new(10, 0, 0, 3), false, true, 3),
    ];
    assert_eq!(select(&adapters), Some(1));
    assert_eq!(select_for(&adapters, Some(1)), Some(0));
    assert_eq!(select_for(&adapters, Some(9)), Some(1));
    assert_eq!(select(&[]), None);
    assert_eq!(
        find_by_address(&adapters, Ipv4Addr::new(10, 0, 0, 3)),
        Some(2)
    );
    assert_eq!(find_by_address(&adapters, Ipv4Addr::new(10, 0, 0, 4)), None);
}

#[test]
fn an_adapter_that_changed_is_not_the_same() {
    let chosen = adapter("a", Ipv4Addr::new(10, 0, 0, 1), true, true, 1);
    let mut moved = chosen.clone();
    moved.ipv4 = Ipv4Addr::new(10, 0, 0, 9);
    assert!(still_present(&[moved.clone()], &chosen));
    moved.interface_index = 5;
    assert!(!still_present(&[moved], &chosen));
    assert!(!still_present(&[], &chosen));
}

#[test]
fn link_local_addresses_are_not_counted_as_routable() {
    let mut one = adapter("a", Ipv4Addr::new(10, 0, 0, 1), true, true, 1);
    one.details.ipv6 = vec![v6(0xfe80, 1), v6(0x2001, 2)];
    let mut two = one.clone();
    two.details.ipv6 = vec![v6(0x2001, 3)];
    assert_eq!(global_ipv6_count(&[one.clone(), two]), 2);
    assert_eq!(routable_addresses(&one.details.ipv6), vec![v6(0x2001, 2)]);
    assert!(!is_link_local(&IpAddr::V4(Ipv4Addr::new(169, 254, 0, 1))));
}

#[test]
fn socket_addresses_are_read_by_family() {
    let mut data = vec![0u8; 28];
    data[4..8].copy_from_slice(&[10, 0, 0, 1]);
    data[8] = 0x20;
    data[9] = 0x01;
    data[23] = 0x05;
    assert_eq!(
        ip_from_socket(2, &data),
        Some(IpAddr::V4(Ipv4Addr::new(10, 0, 0, 1)))
    );
    assert_eq!(ip_from_socket(23, &data), Some(v6(0x2001, 5)));
    assert_eq!(ip_from_socket(1, &data), None);
}

#[test]
fn masks_come_from_prefix_lengths() {
    assert_eq!(subnet_mask(0), None);
    assert_eq!(subnet_mask(33), None);
    assert_eq!(subnet_mask(1), Some(Ipv4Addr::new(128, 0, 0, 0)));
    assert_eq!(subnet_mask(20), Some(Ipv4Addr::new(255, 255, 240, 0)));
    assert_eq!(subnet_mask(32), Some(Ipv4Addr::broadcast()));
}
