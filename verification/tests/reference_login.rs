use drcom_campus::reference_login::{
    build_login_packet, challenge_nonce, checksum, dump, first_digest, mac_octets,
    minimal_mac_bytes, padded, rotated_password, second_digest, BuildError, ReferenceLoginConfig,
    CLIENT_KEY,
};

const SALT: [u8; 4] = [0x1a, 0x2b, 0x3c, 0x4d];
const USER: &[u8] = b"testuser";
const USER_36: &[u8] = b"useraaaaaaaaaaaaaaaaaaaaaaaaaaaaaaaa";
const PASSWORD: &[u8] = b"testpass";
const PASSWORD_16: &[u8] = b"0123456789abcdef";
const PASSWORD_12: &[u8] = b"0123456789ab";
const MAC: u64 = 0x112288776655;
const MAC_SMALL: u64 = 0x0000_0abc;

const USER8_PWD8: &str = "0301001c5bc81b0150f9443fd09843b0cf22c4bd7465737475736572000000000000000000000000\
    0000000000000000000000000000000020034aea937636acd73bc3d8a499b1475443e26b84f17ff1\
    010a00000900000000000000000000000055ddd8a146e79285010000000054455354484f53540000\
    000000000000000000000000000000000000000000000a0a0a0a0000000000000000000000000000\
    0000940000000600000002000000f0230000020000004472434f4d00cf0768000000000000000000\
    00000000000000000000000000000000000000000000000000000000000000000000000000000000\
    00000000000033646337396635323132653831373061636661396563393566316437343931363534\
    32626537623100000000000000000000000000000000000000000000000068000008796d43ab01c4\
    b962020c90992baa0000112288776655000060a20000000000000000000000000000000000000000\
    0000000000000000";
const USER8_PWD16: &str = "0301001cbea1a8a32ea40bd6d3fa58213ddafc047465737475736572000000000000000000000000\
    000000000000000000000000000000002003af8320d448f1cafb63d07517894a534f23382c2d7298\
    010a00000900000000000000000000000091d052683c13aac2010000000054455354484f53540000\
    000000000000000000000000000000000000000000000a0a0a0a0000000000000000000000000000\
    0000940000000600000002000000f0230000020000004472434f4d00cf0768000000000000000000\
    00000000000000000000000000000000000000000000000000000000000000000000000000000000\
    00000000000033646337396635323132653831373061636661396563393566316437343931363534\
    326265376231000000000000000000000000000000000000000000000000680000107484d484d08c\
    e90f5f1ec91af2f5cc13020c3039b60c000011228877665560a20000000000000000000000000000\
    0000000000000000000000000000";
const MAC_LEADING_ZERO: &str = "0301001c5bc81b0150f9443fd09843b0cf22c4bd7465737475736572000000000000000000000000\
    0000000000000000000000000000000020035bd9393214acd73bc3d8a499b1475443e26b84f17ff1\
    010a000009000000000000000000000000b5c66cb87746771f010000000054455354484f53540000\
    000000000000000000000000000000000000000000000a0a0a0a0000000000000000000000000000\
    0000940000000600000002000000f0230000020000004472434f4d00cf0768000000000000000000\
    00000000000000000000000000000000000000000000000000000000000000000000000000000000\
    00000000000033646337396635323132653831373061636661396563393566316437343931363534\
    32626537623100000000000000000000000000000000000000000000000068000008796d43ab01c4\
    b962020c902ef79e00001122334455000060a2000000000000000000000000000000000000000000\
    00000000000000";
const USER36_PWD12: &str = "03010038f5e854abeb38c43b1df909fe12bd91a37573657261616161616161616161616161616161\
    616161616161616161616161616161612003e4cadcdc8d6d5eeae8e5e1dff992f216c3076f673482\
    010a000009000000000000000000000000e2e8c7b61404d0a0010000000054455354484f53540000\
    000000000000000000000000000000000000000000000a0a0a0a0000000000000000000000000000\
    0000940000000600000002000000f0230000020000004472434f4d00cf0768000000000000000000\
    00000000000000000000000000000000000000000000000000000000000000000000000000000000\
    00000000000033646337396635323132653831373061636661396563393566316437343931363534\
    3262653762310000000000000000000000000000000000000000000000006800000c2ece33c4fe68\
    9760290643e4020c10a29558000011228877665500000060a2000000000000000000000000000000\
    00000000000000000000000000";
const MAC_SMALL_FRAME: &str = "0301001c5bc81b0150f9443fd09843b0cf22c4bd7465737475736572000000000000000000000000\
    0000000000000000000000000000000020035bc81b015a45d73bc3d8a499b1475443e26b84f17ff1\
    010a000009000000000000000000000000de9f2203bcb3f220010000000054455354484f53540000\
    000000000000000000000000000000000000000000000a0a0a0a0000000000000000000000000000\
    0000940000000600000002000000f0230000020000004472434f4d00cf0768000000000000000000\
    00000000000000000000000000000000000000000000000000000000000000000000000000000000\
    00000000000033646337396635323132653831373061636661396563393566316437343931363534\
    32626537623100000000000000000000000000000000000000000000000068000008796d43ab01c4\
    b962020cc0bbb86200000abc000060a2000000000000000000000000000000000000000000000000\
    00000000";
const PRIMARY: &str = "ff5bc81b0150f9443fd09843b0cf22c4bd000000101112131415161718191a1b1c1d1e1f89590000\
    0000";

fn bytes_of(hex: &str) -> Vec<u8> {
    (0..hex.len() / 2)
        .map(|index| u8::from_str_radix(&hex[2 * index..2 * index + 2], 16).unwrap())
        .collect()
}

fn config(mac: u64) -> ReferenceLoginConfig {
    ReferenceLoginConfig {
        host_ipv4: [10, 0, 0, 9],
        mac,
        hostname: b"TESTHOST".to_vec(),
        primary_dns: [10, 10, 10, 10],
        dhcp_server: [0, 0, 0, 0],
        auth_version: [0x68, 0x00],
        control_status: 0x20,
        adapter_num: 0x03,
        ip_dog: 0x01,
    }
}

#[test]
fn login_frame_matches_reference_bytes() {
    let packet = build_login_packet(&SALT, USER, PASSWORD, &config(MAC)).unwrap();
    assert_eq!(packet, bytes_of(USER8_PWD8));
}

#[test]
fn checksum_reproduces_reference_grouping_not_a_flat_stride() {
    let packet = build_login_packet(&SALT, USER, PASSWORD, &config(MAC)).unwrap();
    assert_eq!(
        &packet[324..328],
        &[0x90, 0x99, 0x2b, 0xaa],
        "reference value"
    );
    let flat = [0x78u8, 0x39, 0xee, 0x10];
    assert_ne!(&packet[324..328], &flat[..]);
}

#[test]
fn a_newline_shifts_the_windows_of_the_checksum() {
    let seed: u32 = 1234;
    let word = |bytes: [u8; 4]| u32::from_le_bytes(bytes);
    let scaled = |value: u32| value.wrapping_mul(1968).to_le_bytes();
    assert_eq!(checksum(&[]), scaled(seed));
    assert_eq!(checksum(&[1, 2, 3]), scaled(seed));
    assert_eq!(checksum(&[1, 2, 3, 4]), scaled(seed ^ word([1, 2, 3, 4])));
    assert_eq!(
        checksum(&[10, 1, 2, 3, 4]),
        scaled(seed ^ word([1, 2, 3, 4]))
    );
    assert_eq!(checksum(&[1, 2, 3, 10]), scaled(seed));
}

#[test]
fn password_padding_is_skipped_for_sixteen_byte_password() {
    let packet = build_login_packet(&SALT, USER, PASSWORD_16, &config(MAC)).unwrap();
    assert_eq!(packet, bytes_of(USER8_PWD16));
    assert_eq!(packet.len(), bytes_of(USER8_PWD8).len() + 6);
    let trailer = packet.len() - 30;
    assert_eq!(&packet[trailer..trailer + 2], &[0x60, 0xa2]);
}

#[test]
fn mac_with_leading_zero_matches_reference_dump_semantics() {
    let packet = build_login_packet(&SALT, USER, PASSWORD, &config(0x0011_2233_4455)).unwrap();
    assert_eq!(packet, bytes_of(MAC_LEADING_ZERO));
    assert_eq!(dump(0), vec![0x00]);
    assert_eq!(dump(0x1122_8877_6655).len(), 6);
    assert_eq!(dump(0x0011_2233_4455).len(), 5);
}

#[test]
fn widest_account_and_twelve_byte_password_match_reference() {
    let packet = build_login_packet(&SALT, USER_36, PASSWORD_12, &config(MAC)).unwrap();
    assert_eq!(packet, bytes_of(USER36_PWD12));
    assert_eq!(packet.len(), bytes_of(USER8_PWD8).len() + 5);
    let trailer = packet.len() - 30;
    assert_eq!(&packet[trailer..trailer + 2], &[0x60, 0xa2]);
    assert_eq!(
        &packet[trailer - 3..trailer],
        &[0u8; 3],
        "three padding bytes"
    );
}

#[test]
fn a_short_mac_only_shortens_the_trailer_copy() {
    let packet = build_login_packet(&SALT, USER, PASSWORD, &config(MAC_SMALL)).unwrap();
    assert_eq!(packet, bytes_of(MAC_SMALL_FRAME));
    assert_eq!(dump(MAC_SMALL), vec![0x0a, 0xbc]);
    assert_eq!(packet.len(), bytes_of(USER8_PWD8).len() - 4);
}

#[test]
fn a_ten_byte_password_produces_the_length_seen_on_the_wire() {
    let packet = build_login_packet(&SALT, USER, b"0123456789", &config(MAC)).unwrap();
    assert_eq!(packet.len(), bytes_of(USER8_PWD8).len() + 2);
    assert_eq!(packet.len(), 370);
}

#[test]
fn client_key_is_forty_bytes_at_offset_246() {
    let packet = build_login_packet(&SALT, USER, PASSWORD, &config(MAC)).unwrap();
    assert_eq!(&CLIENT_KEY[..], &b"3dc79f5212e8170acfa9ec95f1d74916542be7b1"[..]);
    assert_eq!(CLIENT_KEY.len(), 40);
    assert_eq!(&packet[246..286], &CLIENT_KEY[..]);
    assert_eq!(packet.len(), 368);
}

#[test]
fn challenge_nonce_uses_reference_modulus() {
    assert_eq!(challenge_nonce(0x1234_5678), 0x68ac);
    assert_eq!(challenge_nonce(1_595_812_411), 0x8959);
}

#[test]
fn oversized_credentials_are_rejected() {
    assert_eq!(
        build_login_packet(&SALT, &[b'a'; 37], PASSWORD, &config(MAC)),
        Err(BuildError::UsernameTooLong)
    );
    assert_eq!(
        build_login_packet(&SALT, USER, &[b'a'; 17], &config(MAC)),
        Err(BuildError::PasswordTooLong)
    );
}

#[test]
fn first_digest_is_reused_by_the_primary_keep_alive() {
    let digest = first_digest(&SALT, PASSWORD);
    let expected: [u8; 16] = bytes_of(PRIMARY)[1..17].try_into().unwrap();
    assert_eq!(digest, expected);
}

#[test]
fn the_mac_field_unmasks_to_the_mac() {
    let packet = build_login_packet(&SALT, USER, PASSWORD, &config(MAC)).unwrap();
    let digest = first_digest(&SALT, PASSWORD);
    let mac: Vec<u8> = (0..6).map(|index| packet[58 + index] ^ digest[index]).collect();
    assert_eq!(mac, [0x11, 0x22, 0x88, 0x77, 0x66, 0x55]);
    assert_eq!(mac_octets(MAC).to_vec(), mac);
}

#[test]
fn the_rotated_password_can_be_recovered() {
    let digest = first_digest(&SALT, PASSWORD);
    let field = rotated_password(&digest, PASSWORD);
    let recovered: Vec<u8> = (0..8)
        .map(|index| field[index].rotate_right(3) ^ digest[index])
        .collect();
    assert_eq!(recovered, PASSWORD);
}

#[test]
fn fields_are_padded_or_cut_to_their_width() {
    assert_eq!(padded(b"ab", 4), vec![b'a', b'b', 0, 0]);
    assert_eq!(padded(b"abcde", 4), b"abcd".to_vec());
    assert_eq!(minimal_mac_bytes(0xabc, 6), vec![0, 0, 0, 0, 0x0a, 0xbc]);
    assert_eq!(
        minimal_mac_bytes(0x11_2233_4455_6677, 6),
        vec![0x11, 0x22, 0x33, 0x44, 0x55, 0x66, 0x77]
    );
}

#[test]
fn the_second_digest_is_in_the_frame() {
    let packet = build_login_packet(&SALT, USER, PASSWORD, &config(MAC)).unwrap();
    assert_eq!(&packet[64..80], &second_digest(&SALT, PASSWORD));
}
