use drcom_campus::login_response::{
    decode_simplified_chinese, parse, trimmed_message, LoginFailure, LoginResponse, LoginSuccess,
};
use drcom_campus::net::Ipv4Addr;

#[test]
fn extracts_success_cookie_at_reference_offset() {
    let mut packet = vec![0u8; 39];
    packet[0] = 4;
    packet[23..39].copy_from_slice(b"0123456789abcdef");
    assert_eq!(
        parse(&packet),
        LoginResponse::Success(LoginSuccess {
            session_cookie: *b"0123456789abcdef",
            raw: packet,
        })
    );
}

#[test]
fn extracts_failure_ip_mac_and_server_message() {
    let mut packet = vec![0u8; 26];
    packet[0] = 5;
    packet[4] = 1;
    packet[5..9].copy_from_slice(&[10, 0, 0, 7]);
    packet[9..15].copy_from_slice(&[1, 2, 3, 4, 5, 6]);
    assert_eq!(
        parse(&packet),
        LoginResponse::Failure(LoginFailure {
            code: 1,
            ip: Some(Ipv4Addr::new(10, 0, 0, 7)),
            mac: Some([1, 2, 3, 4, 5, 6]),
            message: None,
        })
    );
}

/// Builds a code-21 reply, which carries the server's reason from offset 20.
fn message_packet(message: &[u8]) -> Vec<u8> {
    let mut packet = vec![0u8; 20];
    packet[0] = 5;
    packet[4] = 21;
    packet.extend_from_slice(message);
    packet
}

fn failure(packet: &[u8]) -> LoginFailure {
    match parse(packet) {
        LoginResponse::Failure(failure) => failure,
        other => panic!("expected a failure, got {other:?}"),
    }
}

#[test]
fn the_server_reason_survives_parsing_and_padding_is_trimmed() {
    let mut text = b"ldap auth error".to_vec();
    text.extend_from_slice(&[0; 12]);
    let reply = failure(&message_packet(&text));
    assert_eq!(
        reply.message_text(&[]).as_deref(),
        Some("ldap auth error"),
        "trailing NUL padding must not reach the user"
    );
    assert_eq!(failure(&message_packet(&[0u8; 8])).message_text(&[]), None);
}

#[test]
fn a_reason_that_is_not_utf8_is_shown_with_replacements() {
    let reply = failure(&message_packet(&[b'a', 0xff, b'b']));
    assert_eq!(reply.message_text(&[]).as_deref(), Some("a\u{fffd}b"));
    assert_eq!(reply.message_bytes(), Some(vec![b'a', 0xff, b'b']));
    assert_eq!(decode_simplified_chinese("认证".as_bytes(), &[]), "认证");
    assert_eq!(decode_simplified_chinese(b"x", &[0x8ba4, 0xd800]), "认\u{fffd}");
}

#[test]
fn padding_behind_a_reason_is_dropped_and_nothing_else() {
    assert_eq!(trimmed_message(b"  hi \0junk"), b"  hi");
    assert_eq!(trimmed_message(b" \tx y \r\n\0junk"), b" \tx y");
    assert_eq!(trimmed_message(b"\0 x"), b"");
    assert_eq!(trimmed_message(b"  "), b"");
    assert_eq!(failure(&message_packet(b"  \0")).message_text(&[]), None);
}

#[test]
fn short_and_foreign_replies_are_told_apart() {
    assert_eq!(parse(&[]), LoginResponse::TooShort);
    assert_eq!(parse(&[5, 0, 0, 0]), LoginResponse::TooShort);
    assert_eq!(parse(&[9, 9, 9, 9, 9]), LoginResponse::Other(9));
}

#[test]
fn a_short_success_is_kept_without_a_cookie() {
    let mut short_success = vec![7u8; 38];
    short_success[0] = 4;
    assert_eq!(
        parse(&short_success),
        LoginResponse::ShortSuccess(short_success.clone())
    );
    assert_eq!(parse(&[4]), LoginResponse::ShortSuccess(vec![4]));
}

#[test]
fn the_gbk_reason_the_server_sends_is_decoded_for_display() {
    let gbk: &[u8] = &[
        0xb4, 0xcb, 0xd5, 0xcb, 0xba, 0xc5, 0xc3, 0xdc, 0xc2, 0xeb, 0xb4, 0xed, 0xce, 0xf3, 0xa3,
        0xac, 0xc7, 0xeb, 0xb5, 0xbd, 0xd7, 0xd4, 0xd6, 0xfa, 0xb7, 0xfe, 0xce, 0xf1, 0xc6, 0xbd,
        0xcc, 0xa8, 0xd0, 0xde, 0xb8, 0xc4, 0xd3, 0xca, 0xcf, 0xe4, 0xc3, 0xdc, 0xc2, 0xeb, 0xa3,
        0xa1,
    ];
    // What the conversion from code page 936 makes of them.
    let converted: &[u16] = &[
        0x6b64, 0x8d26, 0x53f7, 0x5bc6, 0x7801, 0x9519, 0x8bef, 0xff0c, 0x8bf7,
        0x5230, 0x81ea, 0x52a9, 0x670d, 0x52a1, 0x5e73, 0x53f0, 0x4fee, 0x6539,
        0x90ae, 0x7bb1, 0x5bc6, 0x7801, 0xff01,
    ];
    let reply = failure(&message_packet(gbk));
    assert_eq!(reply.message_bytes().as_deref(), Some(gbk));
    assert_eq!(
        reply.message_text(converted).as_deref(),
        Some("此账号密码错误，请到自助服务平台修改邮箱密码！")
    );
}
