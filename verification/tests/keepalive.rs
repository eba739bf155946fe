use drcom_campus::keepalive::{
    build_packet, build_packet_negotiated, classify_response, crc, is_message_packet,
    negotiated_version, primary_keepalive, update_tail, KeepAliveChecksum, KeepAlivePacketType,
    KeepAliveResponse,
};
use drcom_campus::reference_login::first_digest;

const PRIMARY: &str = "ff5bc81b0150f9443fd09843b0cf22c4bd000000101112131415161718191a1b1c1d1e1f89590000\
    0000";
const TYPE1_FIRST: &str = "070028000b010f272f12000000000000000000000000000000000000000000000000000000000000";
const TYPE1_NEXT: &str = "070728000b01dc022f12000000000000a1b2c3d40000000000000000000000000000000000000000";
const TYPE3_NEXT: &str = "070828000b03dc022f12000000000000a1b2c3d400000000000000000a0000090000000000000000";
const KEEP40_EXTRA: &str = "070028000b010f271122000000000000000000000000000000000000000000000000000000000000";
const KEEP40_DATA1: &str = "070128000b01dc023344000000000000a1b2c3d40000000000000000000000000000000000000000";
const KEEP40_DATA3: &str = "070228000b03dc025566000000000000a1b2c3d40000000023e91d000a0000090000000000000000";
const CRC_RAMP: &str = "8e930500";

fn bytes_of(hex: &str) -> Vec<u8> {
    (0..hex.len() / 2)
        .map(|index| u8::from_str_radix(&hex[2 * index..2 * index + 2], 16).unwrap())
        .collect()
}

#[test]
fn packet_matches_reference_offsets() {
    let packet = build_packet(
        4,
        [1, 2, 3, 4],
        KeepAlivePacketType::Type3,
        true,
        [10, 0, 0, 9],
        [0x12, 0x34],
    );
    assert_eq!(
        &packet[..10],
        &[7, 4, 0x28, 0, 0x0b, 3, 0x0f, 0x27, 0x2f, 0x12]
    );
    assert_eq!(&packet[16..20], &[1, 2, 3, 4]);
    assert_eq!(&packet[28..32], &[10, 0, 0, 9]);
}

#[test]
fn response_classification_and_tail_update() {
    let mut response = [0u8; 20];
    response[..4].copy_from_slice(&[7, 2, 0x28, 0]);
    response[16..20].copy_from_slice(&[9, 8, 7, 6]);
    assert_eq!(
        classify_response(&response, 2, false),
        KeepAliveResponse::Continue { counter: 2 }
    );
    let mut tail = [0u8; 4];
    update_tail(&mut tail, &response);
    assert_eq!(tail, [9, 8, 7, 6]);
}

#[test]
fn every_reply_falls_into_one_class() {
    let mut reply = [0u8; 20];
    reply[..4].copy_from_slice(&[7, 9, 0x28, 0]);
    assert_eq!(
        classify_response(&reply, 2, false),
        KeepAliveResponse::Data { counter: 9 }
    );
    assert_eq!(classify_response(&reply, 2, true), KeepAliveResponse::Invalid);
    reply[1] = 0;
    assert_eq!(
        classify_response(&reply, 2, true),
        KeepAliveResponse::Continue { counter: 0 }
    );
    assert_eq!(
        classify_response(&reply[..4], 2, true),
        KeepAliveResponse::Continue { counter: 0 }
    );
    assert_eq!(
        classify_response(&reply[..19], 2, false),
        KeepAliveResponse::Invalid
    );
    reply[0] = 4;
    assert_eq!(classify_response(&reply, 2, false), KeepAliveResponse::Invalid);
    assert_eq!(classify_response(&[], 0, true), KeepAliveResponse::Invalid);
}

#[test]
fn a_short_reply_leaves_the_tail_alone() {
    let mut tail = [1, 2, 3, 4];
    update_tail(&mut tail, &[0xff; 19]);
    assert_eq!(tail, [1, 2, 3, 4]);
}

#[test]
fn primary_keepalive_matches_reference_bytes() {
    let first = first_digest(&[0x1a, 0x2b, 0x3c, 0x4d], b"testpass");
    let cookie = [
        0x10, 0x11, 0x12, 0x13, 0x14, 0x15, 0x16, 0x17, 0x18, 0x19, 0x1a, 0x1b, 0x1c, 0x1d, 0x1e,
        0x1f,
    ];
    let packet = primary_keepalive(first, cookie, 1_595_812_411);
    assert_eq!(packet.to_vec(), bytes_of(PRIMARY));
    assert_eq!(packet.len(), 0x2a);
    assert_eq!(&packet[20..36], &cookie);
    assert_eq!(&packet[36..38], &[0x89, 0x59]);
    assert!(packet[38..].iter().all(|byte| *byte == 0));
}

#[test]
fn three_packet_forms_match_reference_bytes() {
    let tail = [0xa1, 0xb2, 0xc3, 0xd4];
    let first = build_packet(
        0,
        [0u8; 4],
        KeepAlivePacketType::Type1,
        true,
        [10, 0, 0, 9],
        [0xdc, 0x02],
    );
    assert_eq!(first.to_vec(), bytes_of(TYPE1_FIRST));
    let next = build_packet(
        7,
        tail,
        KeepAlivePacketType::Type1,
        false,
        [10, 0, 0, 9],
        [0xdc, 0x02],
    );
    assert_eq!(next.to_vec(), bytes_of(TYPE1_NEXT));
    let third = build_packet(
        8,
        tail,
        KeepAlivePacketType::Type3,
        false,
        [10, 0, 0, 9],
        [0xdc, 0x02],
    );
    assert_eq!(third.to_vec(), bytes_of(TYPE3_NEXT));
    assert_eq!(&third[28..32], &[10, 0, 0, 9]);
}

#[test]
fn official_packets_match_the_java_implementation() {
    let tail = [0xa1, 0xb2, 0xc3, 0xd4];
    let client_ip = [10, 0, 0, 9];
    let version = [0xdc, 0x02];
    let extra = build_packet_negotiated(
        0,
        [0u8; 4],
        KeepAlivePacketType::Type1,
        true,
        [0x11, 0x22],
        version,
        client_ip,
        KeepAliveChecksum::Zero,
    );
    assert_eq!(extra.to_vec(), bytes_of(KEEP40_EXTRA));
    let data1 = build_packet_negotiated(
        1,
        tail,
        KeepAlivePacketType::Type1,
        false,
        [0x33, 0x44],
        version,
        client_ip,
        KeepAliveChecksum::Zero,
    );
    assert_eq!(data1.to_vec(), bytes_of(KEEP40_DATA1));
    let data3 = build_packet_negotiated(
        2,
        tail,
        KeepAlivePacketType::Type3,
        false,
        [0x55, 0x66],
        version,
        client_ip,
        KeepAliveChecksum::Fold,
    );
    assert_eq!(data3.to_vec(), bytes_of(KEEP40_DATA3));
    assert_eq!(&data3[28..32], &client_ip);
    assert_ne!(&data3[24..28], &[0, 0, 0, 0]);
}

#[test]
fn official_checksum_folds_little_endian_words() {
    assert_eq!(
        crc(&(0u8..28).collect::<Vec<u8>>()).to_vec(),
        bytes_of(CRC_RAMP)
    );
    let mut folded_input = Vec::from(&[0x07, 0x00, 0x28, 0x00, 0x0b, 0x01, 0x0f, 0x27][..]);
    folded_input.extend_from_slice(&[0xa1, 0xb2, 0xc3, 0xd4]);
    assert_eq!(crc(&folded_input).len(), 4);
}

#[test]
fn an_odd_last_byte_is_not_folded() {
    assert_eq!(crc(&[1, 2, 3]), crc(&[1, 2]));
    assert_eq!(crc(&[]), [0, 0, 0, 0]);
}

#[test]
fn version_is_taken_from_the_reply_when_the_server_sends_one() {
    let mut reply = vec![0u8; 30];
    reply[0] = 0x07;
    reply[28] = 0x34;
    reply[29] = 0x12;
    assert_eq!(negotiated_version(&reply), Some([0x34, 0x12]));
    assert_eq!(negotiated_version(&reply[..29]), None);
    let mut not_keepalive = reply.clone();
    not_keepalive[0] = 0x04;
    assert_eq!(negotiated_version(&not_keepalive), None);
}

#[test]
fn message_packets_are_never_mistaken_for_acknowledgements() {
    let mut message = vec![0u8; 32];
    message[..4].copy_from_slice(&[0x07, 0x00, 0x10, 0x00]);
    message[20..].copy_from_slice(b"This Program");
    assert!(is_message_packet(&message));
    assert_eq!(
        classify_response(&message, 0, true),
        KeepAliveResponse::Message { counter: 0 }
    );
    assert_eq!(
        classify_response(&message, 0, false),
        KeepAliveResponse::Message { counter: 0 }
    );
    assert!(!is_message_packet(&[0x07, 0x00, 0x28, 0x00]));
    assert!(!is_message_packet(&[0x07]));
}

#[test]
fn folding_only_fills_the_checksum_slot() {
    let build = |checksum| {
        build_packet_negotiated(
            2,
            [1, 2, 3, 4],
            KeepAlivePacketType::Type3,
            false,
            [0x55, 0x66],
            [0xdc, 0x02],
            [10, 0, 0, 9],
            checksum,
        )
    };
    let zero = build(KeepAliveChecksum::Zero);
    let fold = build(KeepAliveChecksum::Fold);
    assert_eq!(&zero[..24], &fold[..24]);
    assert_eq!(&zero[28..], &fold[28..]);
    assert_eq!(&zero[24..28], &[0; 4]);
}
