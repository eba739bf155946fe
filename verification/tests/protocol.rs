use drcom_campus::protocol::{
    challenge_request, finish_login_checksum, first_login_digest, login_base_packet,
    login_frame_core, login_frame_prefix, logout_packet, masked_login_mac, second_login_digest,
    unencrypted_client_ping, ChallengeError, ChallengeResponse, LoginBaseFields,
    LoginChecksumError, LoginCoreError, LoginPrefixError, LogoutPacketError,
};

#[test]
fn challenge_request_matches_original_layout() {
    let packet = challenge_request(0x42, 0x1234, 0x7e);
    assert_eq!(&packet[..5], &[0x01, 0x42, 0x34, 0x12, 0x7e]);
    assert!(packet[5..].iter().all(|byte| *byte == 0));
}

#[test]
fn challenge_response_checks_echo_before_extracting_fields() {
    let mut bytes = [0u8; 0x2c];
    bytes[..4].copy_from_slice(&[0x02, 0x42, 0x34, 0x12]);
    bytes[4..8].copy_from_slice(&[1, 2, 3, 4]);
    bytes[0x2a..0x2c].copy_from_slice(&0x8001u16.to_le_bytes());
    let parsed = ChallengeResponse::parse(&bytes, 0x42, 0x1234).unwrap();
    assert_eq!(parsed.challenge, [1, 2, 3, 4]);
    assert_eq!(parsed.system_auth_option, 0x8001);
    assert_eq!(
        ChallengeResponse::parse(&bytes, 0x43, 0x1234),
        Err(ChallengeError::SequenceMismatch)
    );
    assert_eq!(
        ChallengeResponse::parse(&bytes, 0x42, 0x1235),
        Err(ChallengeError::NonceMismatch)
    );
    assert_eq!(
        ChallengeResponse::parse(&bytes[..0x2b], 0x42, 0x1234),
        Err(ChallengeError::TooShort)
    );
}

#[test]
fn challenge_response_of_another_type_is_refused() {
    let mut bytes = [0u8; 0x2c];
    bytes[..4].copy_from_slice(&[0x04, 0x42, 0x34, 0x12]);
    assert_eq!(
        ChallengeResponse::parse(&bytes, 0x42, 0x1234),
        Err(ChallengeError::UnexpectedType)
    );
}

#[test]
fn challenge_response_fields_come_from_their_offsets() {
    let mut bytes: Vec<u8> = (0..0x2cu8).collect();
    bytes[..4].copy_from_slice(&[0x02, 7, 0x34, 0x12]);
    let parsed = ChallengeResponse::parse(&bytes, 7, 0x1234).unwrap();
    assert_eq!(parsed.challenge, [4, 5, 6, 7]);
    assert_eq!(parsed.field_08, [8, 9]);
    assert_eq!(parsed.field_0a, [10, 11]);
    assert_eq!(parsed.field_0c, [12, 13]);
    assert_eq!(parsed.field_10, [16, 17, 18, 19]);
    assert_eq!(parsed.field_14, [20, 21, 22, 23]);
    assert_eq!(parsed.system_auth_option, 0x2b2a);
    assert_eq!(parsed.bytes, &bytes[..]);
}

#[test]
fn first_digest_truncates_account_as_original_does() {
    let challenge = [1, 2, 3, 4];
    assert_eq!(
        first_login_digest(challenge, b"1234567890abcdef-extra"),
        first_login_digest(challenge, b"1234567890abcdef")
    );
    assert_eq!(
        first_login_digest(challenge, b"alice\0ignored"),
        first_login_digest(challenge, b"alice")
    );
    assert_eq!(
        first_login_digest(challenge, b"alice"),
        [
            0x41, 0xae, 0xdf, 0x1b, 0x46, 0x0f, 0x32, 0x42, 0x44, 0x94, 0x1f, 0xf3, 0xc3, 0xf6,
            0x4e, 0xc4,
        ]
    );
}

#[test]
fn second_digest_includes_four_zero_bytes_after_challenge() {
    let expected = [
        0x7a, 0xc2, 0x90, 0xc2, 0xc5, 0x62, 0x27, 0xc8, 0x82, 0xdf, 0xdc, 0x8b, 0xb0, 0x25, 0x56,
        0x29,
    ];
    assert_eq!(second_login_digest([1, 2, 3, 4], b"alice"), expected);
    assert_eq!(
        second_login_digest([1, 2, 3, 4], b"1234567890abcdef-extra"),
        second_login_digest([1, 2, 3, 4], b"1234567890abcdef")
    );
}

#[test]
fn login_core_hashes_address_list_and_replaces_marker() {
    let core = login_frame_core(
        [1, 2, 3, 4],
        b"alice",
        b"secret",
        0x42,
        9,
        [0, 1, 2, 3, 4, 5],
        &[[10, 0, 0, 1], [10, 0, 0, 2]],
    )
    .unwrap();
    assert_eq!(core[80], 2);
    assert_eq!(&core[81..89], &[10, 0, 0, 1, 10, 0, 0, 2]);
    assert!(core[89..97].iter().all(|byte| *byte == 0));
    assert_eq!(
        &core[97..105],
        &[0xd8, 0x53, 0xcd, 0x57, 0x06, 0xeb, 0x45, 0x86]
    );
    assert_eq!(
        login_frame_core([0; 4], b"a", b"p", 0, 0, [0; 6], &[[0; 4]; 5]),
        Err(LoginCoreError::TooManyAddresses)
    );
}

#[test]
fn login_core_refuses_a_password_that_does_not_fit() {
    assert_eq!(
        login_frame_core([0; 4], b"a", &[1; 37], 0, 0, [0; 6], &[]),
        Err(LoginCoreError::PasswordTooLong)
    );
    assert!(login_frame_core([0; 4], b"a", &[1; 36], 0, 0, [0; 6], &[]).is_ok());
}

#[test]
fn base_login_variant_places_raw_block_and_trailer() {
    let mut block = [0u8; 200];
    block[0] = 0xaa;
    block[199] = 0xbb;
    let packet = login_base_packet(&LoginBaseFields {
        challenge: [1, 2, 3, 4],
        account: b"alice",
        password: b"secret",
        control_check_status: 0x42,
        sequence: 9,
        mac: [0, 1, 2, 3, 4, 5],
        ipv4_addresses: &[[10, 0, 0, 1], [10, 0, 0, 2]],
        byte_105: 1,
        block_110: &block,
        byte_310: 2,
        byte_311: 3,
        field_318: 0x1234,
    })
    .unwrap();
    assert_eq!(packet.len(), 328);
    assert_eq!(packet[105], 1);
    assert_eq!(packet[110], 0xaa);
    assert_eq!(packet[309], 0xbb);
    assert_eq!(
        &packet[310..326],
        &[2, 3, 2, 12, 0xc0, 0xa6, 0xe5, 0x88, 0x34, 0x12, 0, 1, 2, 3, 4, 5]
    );
    assert_eq!(&packet[326..], &[0, 0]);
}

#[test]
fn login_prefix_places_first_digest_password_and_masked_mac() {
    let prefix = login_frame_prefix(
        [1, 2, 3, 4],
        b"alice",
        b"secret",
        0x42,
        0x09,
        [0, 1, 2, 3, 4, 5],
    )
    .unwrap();
    assert_eq!(&prefix[..4], &[3, 1, 0, 6]);
    assert_eq!(
        &prefix[4..20],
        &[
            0x41, 0xae, 0xdf, 0x1b, 0x46, 0x0f, 0x32, 0x42, 0x44, 0x94, 0x1f, 0xf3, 0xc3, 0xf6,
            0x4e, 0xc4,
        ]
    );
    assert_eq!(&prefix[20..26], b"secret");
    assert!(prefix[26..56].iter().all(|byte| *byte == 0));
    assert_eq!(&prefix[56..58], &[0x42, 0x09]);
    assert_eq!(&prefix[58..64], &[0x41, 0xaf, 0xdd, 0x18, 0x42, 0x0a]);
    assert_eq!(
        login_frame_prefix([0; 4], b"a", &[1; 37], 0, 0, [0; 6]),
        Err(LoginPrefixError::PasswordTooLong)
    );
}

#[test]
fn checksum_uses_seed_xor_and_original_multiplier() {
    let mut packet: Vec<u8> = (0..16).collect();
    let value = finish_login_checksum(&mut packet, 6).unwrap();
    assert_eq!(value, 0xe6ade2f0);
    assert_eq!(&packet[6..10], &[0xf0, 0xe2, 0xad, 0xe6]);
    assert_eq!(
        finish_login_checksum(&mut packet[..15], 6),
        Err(LoginChecksumError::MisalignedPacketLength)
    );
    assert_eq!(
        finish_login_checksum(&mut packet, 13),
        Err(LoginChecksumError::ChecksumOutsidePacket)
    );
}

#[test]
fn checksum_is_stable_and_only_fills_its_slot() {
    let mut packet: Vec<u8> = (0..16).collect();
    let before = packet.clone();
    let first = finish_login_checksum(&mut packet, 6).unwrap();
    assert_eq!(&packet[..6], &before[..6]);
    assert_eq!(&packet[10..], &before[10..]);
    assert_eq!(finish_login_checksum(&mut packet, 6), Ok(first));
}

#[test]
fn masked_mac_uses_first_six_digest_bytes() {
    let digest = first_login_digest([1, 2, 3, 4], b"alice");
    assert_eq!(
        masked_login_mac([0, 1, 2, 3, 4, 5], digest),
        [0x41, 0xaf, 0xdd, 0x18, 0x42, 0x0a]
    );
}

#[test]
fn masking_twice_restores_the_mac() {
    let digest = first_login_digest([9, 8, 7, 6], b"bob");
    let mac = [0xde, 0xad, 0xbe, 0xef, 0x00, 0x01];
    assert_eq!(masked_login_mac(masked_login_mac(mac, digest), digest), mac);
}

#[test]
fn unencrypted_ping_layout_has_both_original_lengths() {
    let digest = [0x11; 16];
    let online = [0x22; 16];
    let short = unencrypted_client_ping(digest, online, 0x1234, None);
    assert_eq!(short.len(), 0x26);
    assert_eq!(short[0], 0xff);
    assert_eq!(&short[1..17], &digest);
    assert_eq!(&short[17..20], &[0, 0, 0]);
    assert_eq!(&short[20..36], &online);
    assert_eq!(&short[36..38], &[0x34, 0x12]);

    let long = unencrypted_client_ping(digest, online, 0x1234, Some(0x01020304));
    assert_eq!(long.len(), 0x2a);
    assert_eq!(&long[..38], &short);
    assert_eq!(&long[38..42], &[4, 3, 2, 1]);
}

#[test]
fn logout_frame_matches_decompiled_field_offsets() {
    let packet = logout_packet(
        [1, 2, 3, 4],
        b"alice",
        b"secret",
        0x42,
        0x09,
        [0, 1, 2, 3, 4, 5],
        [0x55; 16],
    )
    .unwrap();
    assert_eq!(&packet[..4], &[6, 1, 0, 6]);
    assert_eq!(
        &packet[4..20],
        &[
            0x37, 0x65, 0x6f, 0xeb, 0xe7, 0xe6, 0x92, 0x87, 0xe4, 0x97, 0x69, 0x3a, 0xeb, 0x62,
            0x98, 0x8d,
        ]
    );
    assert_eq!(&packet[20..26], b"secret");
    assert!(packet[26..56].iter().all(|byte| *byte == 0));
    assert_eq!(&packet[56..58], &[0x42, 0x09]);
    assert_eq!(&packet[58..64], &[0x37, 0x64, 0x6d, 0xe8, 0xe3, 0xe3]);
    assert_eq!(&packet[64..80], &[0x55; 16]);
    assert_eq!(
        logout_packet([0; 4], b"a", &[1; 37], 0, 0, [0; 6], [0; 16]),
        Err(LogoutPacketError::PasswordTooLong)
    );
}
