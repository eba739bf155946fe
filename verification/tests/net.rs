use drcom_campus::net::{
    endpoint_string, first_ipv4_string, ip_string, ip_strings, ipv4_string, ipv4_strings,
    ipv6_string, parse_ipv4, IpAddr, Ipv4Addr, Ipv6Addr, SocketAddrV4,
};

fn chars(text: &str) -> Vec<char> {
    text.chars().collect()
}

#[test]
fn dotted_notation_is_read_back() {
    for address in [
        Ipv4Addr::unspecified(),
        Ipv4Addr::broadcast(),
        Ipv4Addr::new(10, 100, 61, 3),
        Ipv4Addr::new(1, 20, 255, 9),
    ] {
        let notation = ipv4_string(address);
        assert_eq!(parse_ipv4(&chars(&notation)), Some(address));
        assert_eq!(Ipv4Addr::from_octets(address.octets()), address);
    }
    assert_eq!(ipv4_string(Ipv4Addr::new(10, 100, 61, 3)), "10.100.61.3");
    assert_eq!(Ipv4Addr::new(10, 100, 61, 3).to_number(), 0x0a64_3d03);
}

#[test]
fn other_notations_are_refused() {
    for text in [
        "", "1.2.3", "1.2.3.4.5", "1.2.3.256", "01.2.3.4", "1..3.4", " 1.2.3.4", "1.2.3.4 ",
        "+1.2.3.4", "1.2.3.1000", "a.b.c.d", "1.2.3.4,", "1,2,3,4",
    ] {
        assert_eq!(parse_ipv4(&chars(text)), None, "{text:?}");
    }
}

#[test]
fn addresses_are_classified() {
    assert!(Ipv4Addr::unspecified().is_unspecified());
    assert!(Ipv4Addr::broadcast().is_broadcast());
    assert!(Ipv4Addr::new(127, 9, 9, 9).is_loopback());
    assert!(Ipv4Addr::new(169, 254, 9, 9).is_link_local());
}

#[test]
fn ipv6_notation_shortens_the_longest_run_of_zeros() {
    let cases: [([u16; 8], &str); 8] = [
        ([0; 8], "::"),
        ([0, 0, 0, 0, 0, 0, 0, 1], "::1"),
        ([0x2001, 0xda8, 0, 0, 0, 0, 0, 1], "2001:da8::1"),
        ([1, 0, 0, 2, 0, 0, 0, 3], "1:0:0:2::3"),
        ([1, 0, 2, 3, 4, 5, 6, 7], "1:0:2:3:4:5:6:7"),
        ([1, 0, 0, 2, 3, 0, 0, 4], "1::2:3:0:0:4"),
        ([0xfe80, 0, 0, 0, 0, 0, 0, 0], "fe80::"),
        ([0, 0, 0, 0, 0, 0xffff, 0x0a64, 0x3d03], "::ffff:10.100.61.3"),
    ];
    for (segments, expected) in cases {
        assert_eq!(ipv6_string(Ipv6Addr { segments }), expected);
    }
}

#[test]
fn lists_keep_their_order() {
    let v4 = IpAddr::V4(Ipv4Addr::new(10, 0, 0, 1));
    let v6 = IpAddr::V6(Ipv6Addr {
        segments: [0x2001, 0, 0, 0, 0, 0, 0, 1],
    });
    assert_eq!(ip_strings(&[v6, v4]), vec!["2001::1", "10.0.0.1"]);
    assert_eq!(ip_string(v4), "10.0.0.1");
    assert_eq!(first_ipv4_string(&[v6, v4]), "10.0.0.1");
    assert_eq!(first_ipv4_string(&[v6]), "");
    assert_eq!(
        ipv4_strings(&[Ipv4Addr::localhost(), Ipv4Addr::broadcast()]),
        vec!["127.0.0.1", "255.255.255.255"]
    );
    assert_eq!(
        endpoint_string(SocketAddrV4 {
            ip: Ipv4Addr::localhost(),
            port: 61440,
        }),
        "127.0.0.1:61440"
    );
}
