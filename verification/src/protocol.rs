//! Dr.COM UDP wire fragments: challenge, login frame pieces, client ping and logout.
//!
//! Everything here is bytes in, bytes out. Account and password encodings are left to the
//! caller: the frames hash and carry bytes, not Unicode code points.

use vstd::prelude::*;

use crate::bytes;
use crate::md5;

verus! {

/// The longest password a fixed frame can carry.
pub const PASSWORD_FIELD_LEN: usize = 36;

/// The most addresses the login frame can list.
pub const ADDRESS_SLOTS: usize = 4;

/// The word that stands in the checksum slot while the checksum is computed.
pub const CHECKSUM_SEED: u32 = 0x11072601;

/// The shortest challenge response that can be read.
pub const CHALLENGE_RESPONSE_LEN: usize = 0x2c;

/// The challenge request: type, sequence, little-endian nonce, client option, fifteen zero
/// bytes.
pub open spec fn challenge_request_frame(sequence: u8, nonce: u16, client_option: u8) -> Seq<u8> {
    seq![0x01u8, sequence] + bytes::le16(nonce) + seq![client_option] + bytes::zeros(15)
}

/// The part of an account name that the login digests cover: at most sixteen bytes in front
/// of the first zero byte.
pub open spec fn digest_account(account: Seq<u8>) -> Seq<u8> {
    bytes::at_most(bytes::until_nul(account), 16)
}

/// First login digest: `03 01`, the challenge, the account.
pub open spec fn first_digest_of(challenge: Seq<u8>, account: Seq<u8>) -> Seq<u8> {
    md5::md5(seq![0x03u8, 0x01u8] + challenge + digest_account(account))
}

/// Second login digest: `01`, the account, the challenge, four zero bytes.
pub open spec fn second_digest_of(challenge: Seq<u8>, account: Seq<u8>) -> Seq<u8> {
    md5::md5(seq![0x01u8] + digest_account(account) + challenge + bytes::zeros(4))
}

/// The MAC address with each byte masked by the corresponding digest byte.
pub open spec fn masked_mac(mac: Seq<u8>, digest: Seq<u8>) -> Seq<u8> {
    Seq::new(6, |i: int| mac[i] ^ digest[i])
}

/// The 64 bytes that the login and the logout frame share in layout: type, `01 00`, password
/// length, digest, password in a 36-byte field, control status, sequence, masked MAC.
pub open spec fn credential_block(
    kind: u8,
    digest: Seq<u8>,
    password: Seq<u8>,
    control_check_status: u8,
    sequence: u8,
    mac: Seq<u8>,
) -> Seq<u8> {
    seq![kind, 0x01u8, 0x00u8, password.len() as u8] + digest + bytes::fitted(
        password,
        PASSWORD_FIELD_LEN as nat,
    ) + seq![control_check_status, sequence] + masked_mac(mac, digest)
}

/// The first 64 bytes of the login frame.
pub open spec fn login_prefix(
    challenge: Seq<u8>,
    account: Seq<u8>,
    password: Seq<u8>,
    control_check_status: u8,
    sequence: u8,
    mac: Seq<u8>,
) -> Seq<u8> {
    credential_block(
        0x03,
        first_digest_of(challenge, account),
        bytes::until_nul(password),
        control_check_status,
        sequence,
        mac,
    )
}

/// The addresses one after the other.
pub open spec fn joined(addresses: Seq<[u8; 4]>) -> Seq<u8>
    decreases addresses.len(),
{
    if addresses.len() == 0 {
        Seq::empty()
    } else {
        joined(addresses.drop_last()) + addresses.last()@
    }
}

/// The first 97 bytes of the login frame: prefix, second digest, address count, four address
/// slots.
pub open spec fn login_head(
    challenge: Seq<u8>,
    account: Seq<u8>,
    password: Seq<u8>,
    control_check_status: u8,
    sequence: u8,
    mac: Seq<u8>,
    addresses: Seq<[u8; 4]>,
) -> Seq<u8> {
    login_prefix(challenge, account, password, control_check_status, sequence, mac)
        + second_digest_of(challenge, account) + seq![addresses.len() as u8] + bytes::fitted(
        joined(addresses),
        16,
    )
}

/// The first 105 bytes of the login frame: the head, then the first eight bytes of the digest
/// of the head and the marker `14 00 07 0b`.
pub open spec fn login_core(
    challenge: Seq<u8>,
    account: Seq<u8>,
    password: Seq<u8>,
    control_check_status: u8,
    sequence: u8,
    mac: Seq<u8>,
    addresses: Seq<[u8; 4]>,
) -> Seq<u8> {
    let head = login_head(
        challenge,
        account,
        password,
        control_check_status,
        sequence,
        mac,
        addresses,
    );
    head + md5::md5(head + seq![0x14u8, 0x00u8, 0x07u8, 0x0bu8]).take(8)
}

/// The exclusive or of `seed` and the first `n` little-endian words of `data`.
pub open spec fn xor_words(seed: u32, data: Seq<u8>, n: nat) -> u32
    decreases n,
{
    if n == 0 {
        seed
    } else {
        xor_words(seed, data, (n - 1) as nat) ^ bytes::word32(
            data[4 * n - 4],
            data[4 * n - 3],
            data[4 * n - 2],
            data[4 * n - 1],
        )
    }
}

/// The login checksum of `packet` with its checksum slot at `at`.
pub open spec fn login_checksum(packet: Seq<u8>, at: int) -> u32 {
    let seeded = bytes::overwritten(packet, at, bytes::le32(CHECKSUM_SEED));
    xor_words(0x4d2, seeded, packet.len() / 4).wrapping_mul(0x7b0)
}

/// `packet` with its checksum in the slot at `at`.
pub open spec fn checksummed(packet: Seq<u8>, at: int) -> Seq<u8> {
    bytes::overwritten(packet, at, bytes::le32(login_checksum(packet, at)))
}

/// The 328-byte login frame before its checksum is filled in.
pub open spec fn login_base_body(fields: LoginBaseFields<'_>) -> Seq<u8> {
    login_core(
        fields.challenge@,
        fields.account@,
        fields.password@,
        fields.control_check_status,
        fields.sequence,
        fields.mac@,
        fields.ipv4_addresses@,
    ) + seq![fields.byte_105] + bytes::zeros(4) + fields.block_110@ + seq![
        fields.byte_310,
        fields.byte_311,
        0x02u8,
        0x0cu8,
    ] + bytes::zeros(4) + bytes::le16(fields.field_318) + fields.mac@ + bytes::zeros(2)
}

/// The unencrypted ping: `ff`, the first digest, three zero bytes, the online fields, the
/// nonce, then the access-control word where there is one.
pub open spec fn client_ping(
    first_digest: Seq<u8>,
    online_fields: Seq<u8>,
    nonce: u16,
    access_control: Option<u32>,
) -> Seq<u8> {
    seq![0xffu8] + first_digest + bytes::zeros(3) + online_fields + bytes::le16(nonce)
        + match access_control {
        Some(control) => bytes::le32(control),
        None => Seq::empty(),
    }
}

/// The digest of the logout frame: `06 01`, the challenge, the account.
pub open spec fn logout_digest_of(challenge: Seq<u8>, account: Seq<u8>) -> Seq<u8> {
    md5::md5(seq![0x06u8, 0x01u8] + challenge + bytes::until_nul(account))
}

/// The 80-byte logout frame.
pub open spec fn logout_frame(
    challenge: Seq<u8>,
    account: Seq<u8>,
    password: Seq<u8>,
    control_check_status: u8,
    sequence: u8,
    mac: Seq<u8>,
    online_fields: Seq<u8>,
) -> Seq<u8> {
    credential_block(
        0x06,
        logout_digest_of(challenge, account),
        bytes::until_nul(password),
        control_check_status,
        sequence,
        mac,
    ) + online_fields
}

/// The reason a challenge response is refused, if there is one. The type, the sequence and
/// the nonce are looked at in that order.
pub open spec fn challenge_refusal(
    response: Seq<u8>,
    expected_sequence: u8,
    expected_nonce: u16,
) -> Option<ChallengeError> {
    if response.len() < CHALLENGE_RESPONSE_LEN {
        Some(ChallengeError::TooShort)
    } else if response[0] != 0x02 {
        Some(ChallengeError::UnexpectedType)
    } else if response[1] != expected_sequence {
        Some(ChallengeError::SequenceMismatch)
    } else if bytes::word16(response[2], response[3]) != expected_nonce {
        Some(ChallengeError::NonceMismatch)
    } else {
        None
    }
}

#[derive(Debug, Clone, Copy, PartialEq, Eq, Structural)]
pub enum LoginPrefixError {
    PasswordTooLong,
}

#[derive(Debug, Clone, Copy, PartialEq, Eq, Structural)]
pub enum LoginCoreError {
    PasswordTooLong,
    TooManyAddresses,
}

/// Raw fields of the login frame without optional extensions.
pub struct LoginBaseFields<'a> {
    pub challenge: [u8; 4],
    pub account: &'a [u8],
    pub password: &'a [u8],
    pub control_check_status: u8,
    pub sequence: u8,
    pub mac: [u8; 6],
    pub ipv4_addresses: &'a [[u8; 4]],
    pub byte_105: u8,
    pub block_110: &'a [u8; 200],
    pub byte_310: u8,
    pub byte_311: u8,
    pub field_318: u16,
}

#[derive(Debug, Clone, Copy, PartialEq, Eq, Structural)]
pub enum LoginChecksumError {
    MisalignedPacketLength,
    ChecksumOutsidePacket,
}

#[derive(Debug, Clone, Copy, PartialEq, Eq, Structural)]
pub enum LogoutPacketError {
    PasswordTooLong,
}

/// The fields of a challenge response. Those without a known meaning stay raw bytes.
#[derive(Debug, Clone, Copy, PartialEq, Eq)]
pub struct ChallengeResponse<'a> {
    pub challenge: [u8; 4],
    pub field_08: [u8; 2],
    pub field_0a: [u8; 2],
    pub field_0c: [u8; 2],
    pub field_10: [u8; 4],
    pub field_14: [u8; 4],
    pub system_auth_option: u16,
    pub bytes: &'a [u8],
}

#[derive(Debug, Clone, Copy, PartialEq, Eq, Structural)]
pub enum ChallengeError {
    TooShort,
    UnexpectedType,
    SequenceMismatch,
    NonceMismatch,
}

/// The 20-byte challenge request.
pub fn challenge_request(sequence: u8, nonce: u16, client_option: u8) -> (packet: [u8; 20])
    ensures
        packet@ == challenge_request_frame(sequence, nonce, client_option),
{
    let mut out: Vec<u8> = Vec::new();
    bytes::append(&mut out, &[0x01, sequence]);
    bytes::append(&mut out, &bytes::le16_bytes(nonce));
    bytes::append(&mut out, &[client_option]);
    bytes::append_zeros(&mut out, 15);
    assert(out@ =~= challenge_request_frame(sequence, nonce, client_option));
    bytes::to_array::<20>(&out)
}

/// Appends the part of `account` that the login digests cover.
fn append_digest_account(out: &mut Vec<u8>, account: &[u8])
    ensures
        final(out)@ == old(out)@ + digest_account(account@),
{
    let nul: usize = bytes::nul_position(account);
    let len: usize = if nul > 16 {
        16
    } else {
        nul
    };
    assert(account@.subrange(0, len as int) =~= digest_account(account@));
    bytes::append(out, vstd::slice::slice_subrange(account, 0, len));
}

/// First login digest.
pub fn first_login_digest(challenge: [u8; 4], account: &[u8]) -> (digest: [u8; 16])
    ensures
        digest@ == first_digest_of(challenge@, account@),
{
    let mut input: Vec<u8> = Vec::new();
    bytes::append(&mut input, &[0x03, 0x01]);
    assert(input@ =~= seq![0x03u8, 0x01u8]);
    bytes::append(&mut input, &challenge);
    append_digest_account(&mut input, account);
    md5::digest(&input)
}

/// Second login digest.
pub fn second_login_digest(challenge: [u8; 4], account: &[u8]) -> (digest: [u8; 16])
    ensures
        digest@ == second_digest_of(challenge@, account@),
{
    let mut input: Vec<u8> = Vec::new();
    input.push(0x01);
    assert(input@ =~= seq![0x01u8]);
    append_digest_account(&mut input, account);
    bytes::append(&mut input, &challenge);
    bytes::append_zeros(&mut input, 4);
    md5::digest(&input)
}

/// Each of the six MAC bytes masked by the corresponding byte of the first login digest.
pub fn masked_login_mac(mac: [u8; 6], first_digest: [u8; 16]) -> (masked: [u8; 6])
    ensures
        masked@ == masked_mac(mac@, first_digest@),
{
    let masked = [
        mac[0] ^ first_digest[0],
        mac[1] ^ first_digest[1],
        mac[2] ^ first_digest[2],
        mac[3] ^ first_digest[3],
        mac[4] ^ first_digest[4],
        mac[5] ^ first_digest[5],
    ];
    assert(masked@ =~= masked_mac(mac@, first_digest@));
    masked
}

/// The shared 64 bytes of the login and the logout frame.
fn credential_bytes(
    kind: u8,
    digest: [u8; 16],
    password: &[u8],
    control_check_status: u8,
    sequence: u8,
    mac: [u8; 6],
) -> (block: Vec<u8>)
    requires
        password@.len() <= PASSWORD_FIELD_LEN,
    ensures
        block@ == credential_block(
            kind,
            digest@,
            password@,
            control_check_status,
            sequence,
            mac@,
        ),
        block@.len() == 64,
{
    let mut out: Vec<u8> = Vec::new();
    bytes::append(&mut out, &[kind, 0x01, 0x00, password.len() as u8]);
    assert(out@ =~= seq![kind, 0x01u8, 0x00u8, password@.len() as u8]);
    bytes::append(&mut out, &digest);
    bytes::append(&mut out, &bytes::fit(password, PASSWORD_FIELD_LEN));
    let status = [control_check_status, sequence];
    assert(status@ =~= seq![control_check_status, sequence]);
    bytes::append(&mut out, &status);
    bytes::append(&mut out, &masked_login_mac(mac, digest));
    out
}

/// The first 64 bytes of the login frame. The complete frame also holds addresses and a
/// checksum, so this prefix is never sent on its own.
pub fn login_frame_prefix(
    challenge: [u8; 4],
    account: &[u8],
    password: &[u8],
    control_check_status: u8,
    sequence: u8,
    mac: [u8; 6],
) -> (result: Result<[u8; 64], LoginPrefixError>)
    ensures
        result is Err <==> bytes::until_nul(password@).len() > PASSWORD_FIELD_LEN,
        result matches Ok(prefix) ==> prefix@ == login_prefix(
            challenge@,
            account@,
            password@,
            control_check_status,
            sequence,
            mac@,
        ),
{
    let password_len: usize = bytes::nul_position(password);
    if password_len > PASSWORD_FIELD_LEN {
        return Err(LoginPrefixError::PasswordTooLong);
    }
    let digest = first_login_digest(challenge, account);
    assert(password@.subrange(0, password_len as int) =~= password@.take(password_len as int));
    let block = credential_bytes(
        0x03,
        digest,
        vstd::slice::slice_subrange(password, 0, password_len),
        control_check_status,
        sequence,
        mac,
    );
    Ok(bytes::to_array::<64>(&block))
}

/// Appends the addresses one after the other.
fn append_addresses(out: &mut Vec<u8>, addresses: &[[u8; 4]])
    ensures
        final(out)@ == old(out)@ + joined(addresses@),
{
    let mut i: usize = 0;
    assert(addresses@.take(0) =~= Seq::empty());
    assert(old(out)@ + joined(addresses@.take(0)) =~= old(out)@);
    while i < addresses.len()
        invariant
            i <= addresses@.len(),
            out@ == old(out)@ + joined(addresses@.take(i as int)),
        decreases addresses@.len() - i,
    {
        bytes::append(out, &addresses[i]);
        proof {
            let next = addresses@.take(i + 1);
            assert(next.drop_last() =~= addresses@.take(i as int));
            assert(next.last() == addresses@[i as int]);
            assert(out@ =~= old(out)@ + joined(next));
        }
        i += 1;
    }
    assert(addresses@.take(addresses@.len() as int) =~= addresses@);
}

/// The first 105 bytes of the login frame.
pub fn login_frame_core(
    challenge: [u8; 4],
    account: &[u8],
    password: &[u8],
    control_check_status: u8,
    sequence: u8,
    mac: [u8; 6],
    ipv4_addresses: &[[u8; 4]],
) -> (result: Result<[u8; 105], LoginCoreError>)
    ensures
        result == Err::<[u8; 105], LoginCoreError>(LoginCoreError::TooManyAddresses)
            <==> ipv4_addresses@.len() > ADDRESS_SLOTS,
        result == Err::<[u8; 105], LoginCoreError>(LoginCoreError::PasswordTooLong)
            <==> ipv4_addresses@.len() <= ADDRESS_SLOTS && bytes::until_nul(password@).len()
            > PASSWORD_FIELD_LEN,
        result matches Ok(core) ==> core@ == login_core(
            challenge@,
            account@,
            password@,
            control_check_status,
            sequence,
            mac@,
            ipv4_addresses@,
        ),
{
    if ipv4_addresses.len() > ADDRESS_SLOTS {
        return Err(LoginCoreError::TooManyAddresses);
    }
    let prefix = match login_frame_prefix(
        challenge,
        account,
        password,
        control_check_status,
        sequence,
        mac,
    ) {
        Ok(prefix) => prefix,
        Err(_) => return Err(LoginCoreError::PasswordTooLong),
    };
    let mut slots: Vec<u8> = Vec::new();
    append_addresses(&mut slots, ipv4_addresses);
    assert(slots@ =~= joined(ipv4_addresses@));

    let mut frame: Vec<u8> = Vec::new();
    bytes::append(&mut frame, &prefix);
    assert(frame@ =~= prefix@);
    bytes::append(&mut frame, &second_login_digest(challenge, account));
    let count = [ipv4_addresses.len() as u8];
    assert(count@ =~= seq![ipv4_addresses@.len() as u8]);
    bytes::append(&mut frame, &count);
    bytes::append(&mut frame, &bytes::fit(&slots, 16));
    let ghost head = frame@;
    assert(head.len() == 97);

    let marker = [0x14u8, 0x00, 0x07, 0x0b];
    assert(marker@ =~= seq![0x14u8, 0x00u8, 0x07u8, 0x0bu8]);
    bytes::append(&mut frame, &marker);
    let digest = md5::digest(&frame);
    frame.truncate(97);
    assert(frame@ =~= head);
    assert(digest@.subrange(0, 8) =~= digest@.take(8));
    bytes::append(&mut frame, vstd::slice::slice_subrange(&digest, 0, 8));
    Ok(bytes::to_array::<105>(&frame))
}

/// The login frame around its first 105 bytes, with an empty checksum slot.
fn login_base_bytes(fields: &LoginBaseFields<'_>, core: &[u8; 105]) -> (packet: Vec<u8>)
    requires
        core@ == login_core(
            fields.challenge@,
            fields.account@,
            fields.password@,
            fields.control_check_status,
            fields.sequence,
            fields.mac@,
            fields.ipv4_addresses@,
        ),
    ensures
        packet@ == login_base_body(*fields),
        packet@.len() == 328,
{
    let mut packet: Vec<u8> = Vec::new();
    bytes::append(&mut packet, core);
    assert(packet@ =~= core@);
    packet.push(fields.byte_105);
    assert(packet@ =~= core@ + seq![fields.byte_105]);
    bytes::append_zeros(&mut packet, 4);
    bytes::append(&mut packet, fields.block_110);
    let trailer = [fields.byte_310, fields.byte_311, 0x02, 0x0c];
    assert(trailer@ =~= seq![fields.byte_310, fields.byte_311, 0x02u8, 0x0cu8]);
    bytes::append(&mut packet, &trailer);
    bytes::append_zeros(&mut packet, 4);
    bytes::append(&mut packet, &bytes::le16_bytes(fields.field_318));
    bytes::append(&mut packet, &fields.mac);
    bytes::append_zeros(&mut packet, 2);
    packet
}

/// The 328-byte login frame without optional extensions, checksum filled in at offset 314.
pub fn login_base_packet(fields: &LoginBaseFields<'_>) -> (result: Result<Vec<u8>, LoginCoreError>)
    ensures
        result == Err::<Vec<u8>, LoginCoreError>(LoginCoreError::TooManyAddresses)
            <==> fields.ipv4_addresses@.len() > ADDRESS_SLOTS,
        result == Err::<Vec<u8>, LoginCoreError>(LoginCoreError::PasswordTooLong)
            <==> fields.ipv4_addresses@.len() <= ADDRESS_SLOTS && bytes::until_nul(
            fields.password@,
        ).len() > PASSWORD_FIELD_LEN,
        result matches Ok(packet) ==> packet@.len() == 328 && packet@ == checksummed(
            login_base_body(*fields),
            314,
        ),
{
    let core = match login_frame_core(
        fields.challenge,
        fields.account,
        fields.password,
        fields.control_check_status,
        fields.sequence,
        fields.mac,
        fields.ipv4_addresses,
    ) {
        Ok(core) => core,
        Err(error) => return Err(error),
    };
    let mut packet = login_base_bytes(fields, &core);
    let _ = finish_login_checksum(&mut packet, 314);
    Ok(packet)
}

/// Fills in the checksum of a login frame. The slot first holds a seed; the exclusive or of
/// all little-endian words, started at `0x4d2` and multiplied by `0x7b0`, then takes its
/// place. The slot may be unaligned.
pub fn finish_login_checksum(packet: &mut [u8], checksum_offset: usize) -> (result: Result<
    u32,
    LoginChecksumError,
>)
    ensures
        old(packet)@.len() % 4 != 0 ==> result == Err::<u32, LoginChecksumError>(
            LoginChecksumError::MisalignedPacketLength,
        ),
        old(packet)@.len() % 4 == 0 && checksum_offset + 4 > old(packet)@.len() ==> result == Err::<
            u32,
            LoginChecksumError,
        >(LoginChecksumError::ChecksumOutsidePacket),
        old(packet)@.len() % 4 == 0 && checksum_offset + 4 <= old(packet)@.len() ==> result == Ok::<
            u32,
            LoginChecksumError,
        >(login_checksum(old(packet)@, checksum_offset as int)),
        final(packet)@ == (if result is Ok {
            checksummed(old(packet)@, checksum_offset as int)
        } else {
            old(packet)@
        }),
{
    let total: usize = packet.len();
    if total % 4 != 0 {
        return Err(LoginChecksumError::MisalignedPacketLength);
    }
    if total < 4 || checksum_offset > total - 4 {
        return Err(LoginChecksumError::ChecksumOutsidePacket);
    }
    bytes::overwrite(packet, checksum_offset, &bytes::le32_bytes(CHECKSUM_SEED));
    let ghost seeded = packet@;
    let mut xor: u32 = 0x4d2;
    let mut n: usize = 0;
    while n < total / 4
        invariant
            packet@ == seeded,
            total == seeded.len(),
            n <= total / 4,
            xor == xor_words(0x4d2, seeded, n as nat),
        decreases total / 4 - n,
    {
        xor = xor ^ bytes::word32_of(
            packet[4 * n],
            packet[4 * n + 1],
            packet[4 * n + 2],
            packet[4 * n + 3],
        );
        n += 1;
    }
    let checksum: u32 = xor.wrapping_mul(0x7b0);
    bytes::overwrite(packet, checksum_offset, &bytes::le32_bytes(checksum));
    assert(packet@ =~= checksummed(old(packet)@, checksum_offset as int));
    Ok(checksum)
}

/// The unencrypted client ping: 38 bytes, or 42 with an access-control word.
pub fn unencrypted_client_ping(
    first_digest: [u8; 16],
    online_fields: [u8; 16],
    nonce: u16,
    access_control: Option<u32>,
) -> (packet: Vec<u8>)
    ensures
        packet@ == client_ping(first_digest@, online_fields@, nonce, access_control),
        packet@.len() == (if access_control is Some {
            42int
        } else {
            38int
        }),
{
    let mut packet: Vec<u8> = Vec::new();
    packet.push(0xff);
    assert(packet@ =~= seq![0xffu8]);
    bytes::append(&mut packet, &first_digest);
    bytes::append_zeros(&mut packet, 3);
    bytes::append(&mut packet, &online_fields);
    bytes::append(&mut packet, &bytes::le16_bytes(nonce));
    assert(packet@ =~= packet@ + Seq::<u8>::empty());
    if let Some(control) = access_control {
        bytes::append(&mut packet, &bytes::le32_bytes(control));
    }
    packet
}

/// The 80-byte logout frame. A password longer than its 36-byte field is refused.
pub fn logout_packet(
    challenge: [u8; 4],
    account: &[u8],
    password: &[u8],
    control_check_status: u8,
    sequence: u8,
    mac: [u8; 6],
    online_fields: [u8; 16],
) -> (result: Result<[u8; 80], LogoutPacketError>)
    ensures
        result is Err <==> bytes::until_nul(password@).len() > PASSWORD_FIELD_LEN,
        result matches Ok(packet) ==> packet@ == logout_frame(
            challenge@,
            account@,
            password@,
            control_check_status,
            sequence,
            mac@,
            online_fields@,
        ),
{
    let password_len: usize = bytes::nul_position(password);
    if password_len > PASSWORD_FIELD_LEN {
        return Err(LogoutPacketError::PasswordTooLong);
    }
    let account_len: usize = bytes::nul_position(account);
    let mut input: Vec<u8> = Vec::new();
    bytes::append(&mut input, &[0x06, 0x01]);
    assert(input@ =~= seq![0x06u8, 0x01u8]);
    bytes::append(&mut input, &challenge);
    assert(account@.subrange(0, account_len as int) =~= account@.take(account_len as int));
    bytes::append(&mut input, vstd::slice::slice_subrange(account, 0, account_len));
    let digest = md5::digest(&input);
    assert(password@.subrange(0, password_len as int) =~= password@.take(password_len as int));
    let mut packet = credential_bytes(
        0x06,
        digest,
        vstd::slice::slice_subrange(password, 0, password_len),
        control_check_status,
        sequence,
        mac,
    );
    bytes::append(&mut packet, &online_fields);
    Ok(bytes::to_array::<80>(&packet))
}

impl<'a> ChallengeResponse<'a> {
    /// Reads a challenge response. Type, sequence and nonce are checked before any field is
    /// used; bytes behind the fixed fields are kept but not read.
    pub fn parse(bytes: &'a [u8], expected_sequence: u8, expected_nonce: u16) -> (result: Result<
        Self,
        ChallengeError,
    >)
        ensures
            match result {
                Err(error) => challenge_refusal(bytes@, expected_sequence, expected_nonce) == Some(
                    error,
                ),
                Ok(response) => {
                    &&& challenge_refusal(bytes@, expected_sequence, expected_nonce) is None
                    &&& response.challenge@ == bytes@.subrange(4, 8)
                    &&& response.field_08@ == bytes@.subrange(8, 10)
                    &&& response.field_0a@ == bytes@.subrange(10, 12)
                    &&& response.field_0c@ == bytes@.subrange(12, 14)
                    &&& response.field_10@ == bytes@.subrange(16, 20)
                    &&& response.field_14@ == bytes@.subrange(20, 24)
                    &&& response.system_auth_option == bytes::word16(bytes@[0x2a], bytes@[0x2b])
                    &&& response.bytes@ == bytes@
                },
            },
    {
        if bytes.len() < CHALLENGE_RESPONSE_LEN {
            return Err(ChallengeError::TooShort);
        }
        if bytes[0] != 0x02 {
            return Err(ChallengeError::UnexpectedType);
        }
        if bytes[1] != expected_sequence {
            return Err(ChallengeError::SequenceMismatch);
        }
        if bytes::word16_of(bytes[2], bytes[3]) != expected_nonce {
            return Err(ChallengeError::NonceMismatch);
        }
        Ok(
            Self {
                challenge: bytes::array_at::<4>(bytes, 4),
                field_08: bytes::array_at::<2>(bytes, 8),
                field_0a: bytes::array_at::<2>(bytes, 10),
                field_0c: bytes::array_at::<2>(bytes, 12),
                field_10: bytes::array_at::<4>(bytes, 16),
                field_14: bytes::array_at::<4>(bytes, 20),
                system_auth_option: bytes::word16_of(bytes[0x2a], bytes[0x2b]),
                bytes,
            },
        )
    }
}

/// Masking is its own inverse: the digest that hid a MAC address also recovers it.
pub proof fn law_masking_twice_restores_the_mac(mac: Seq<u8>, digest: Seq<u8>)
    requires
        mac.len() == 6,
        digest.len() == 16,
    ensures
        masked_mac(masked_mac(mac, digest), digest) == mac,
{
    assert forall|i: int| 0 <= i < 6 implies masked_mac(masked_mac(mac, digest), digest)[i]
        == mac[i] by {
        let m = mac[i];
        let d = digest[i];
        assert((m ^ d) ^ d == m) by (bit_vector);
    }
    assert(masked_mac(masked_mac(mac, digest), digest) =~= mac);
}

/// The checksum does not depend on what the slot held before, so finishing a finished frame
/// changes nothing.
pub proof fn law_checksum_is_stable(packet: Seq<u8>, at: int)
    requires
        packet.len() % 4 == 0,
        0 <= at,
        at + 4 <= packet.len(),
    ensures
        login_checksum(checksummed(packet, at), at) == login_checksum(packet, at),
        checksummed(checksummed(packet, at), at) == checksummed(packet, at),
{
    let once = checksummed(packet, at);
    let seed = bytes::le32(CHECKSUM_SEED);
    assert(bytes::overwritten(once, at, seed) =~= bytes::overwritten(packet, at, seed));
    assert(bytes::overwritten(once, at, bytes::le32(login_checksum(packet, at))) =~= once);
}

/// The word in the slot of a finished frame is the checksum, and every other byte is as before.
pub proof fn law_checksum_only_fills_its_slot(packet: Seq<u8>, at: int, i: int)
    requires
        0 <= at,
        at + 4 <= packet.len(),
        0 <= i < packet.len(),
    ensures
        checksummed(packet, at).len() == packet.len(),
        checksummed(packet, at).subrange(at, at + 4) == bytes::le32(login_checksum(packet, at)),
        !(at <= i < at + 4) ==> checksummed(packet, at)[i] == packet[i],
{
    assert(checksummed(packet, at).subrange(at, at + 4) =~= bytes::le32(
        login_checksum(packet, at),
    ));
}

/// The login digests cover at most sixteen account bytes and nothing behind a zero byte.
pub proof fn law_digests_ignore_the_account_tail(
    challenge: Seq<u8>,
    account: Seq<u8>,
    tail: Seq<u8>,
)
    requires
        bytes::until_nul(account) == account,
    ensures
        first_digest_of(challenge, account + seq![0u8] + tail) == first_digest_of(
            challenge,
            account,
        ),
        second_digest_of(challenge, account + seq![0u8] + tail) == second_digest_of(
            challenge,
            account,
        ),
        account.len() >= 16 ==> first_digest_of(challenge, account + tail) == first_digest_of(
            challenge,
            account.take(16),
        ),
        account.len() >= 16 ==> second_digest_of(challenge, account + tail) == second_digest_of(
            challenge,
            account.take(16),
        ),
{
    let cut = account + seq![0u8] + tail;
    lemma_no_nul(account);
    assert forall|i: int| 0 <= i < account.len() implies cut[i] != 0 by {
        assert(cut[i] == account[i]);
    }
    bytes::lemma_until_nul(cut, account.len() as int);
    assert(cut.take(account.len() as int) =~= account);
    if account.len() >= 16 {
        let long = account + tail;
        let short = account.take(16);
        let n = lemma_until_nul_exists(long);
        assert forall|i: int| 0 <= i < account.len() implies long[i] != 0 by {
            assert(long[i] == account[i]);
        }
        assert(n >= account.len());
        assert(digest_account(long) =~= short);
        bytes::lemma_until_nul(short, 16);
        assert(short.take(16) =~= short);
    }
}

proof fn lemma_no_nul(value: Seq<u8>)
    requires
        bytes::until_nul(value) == value,
    ensures
        forall|i: int| 0 <= i < value.len() ==> value[i] != 0,
{
    let n = lemma_until_nul_exists(value);
    assert(value.take(n).len() == n);
}

proof fn lemma_until_nul_exists(value: Seq<u8>) -> (n: int)
    ensures
        0 <= n <= value.len(),
        forall|i: int| 0 <= i < n ==> value[i] != 0,
        n == value.len() || value[n] == 0,
        bytes::until_nul(value) == value.take(n),
    decreases value.len(),
{
    let n = if value.len() == 0 || value[0] == 0 {
        0
    } else {
        let m = lemma_until_nul_exists(value.skip(1));
        assert forall|i: int| 0 <= i < m + 1 implies value[i] != 0 by {
            if i > 0 {
                assert(value[i] == value.skip(1)[i - 1]);
            }
        }
        m + 1
    };
    bytes::lemma_until_nul(value, n);
    n
}

/// The access-control word only extends the ping: the first 38 bytes do not depend on it.
pub proof fn law_access_control_extends_the_ping(
    first_digest: Seq<u8>,
    online_fields: Seq<u8>,
    nonce: u16,
    control: u32,
)
    ensures
        client_ping(first_digest, online_fields, nonce, Some(control)) == client_ping(
            first_digest,
            online_fields,
            nonce,
            None,
        ) + bytes::le32(control),
{
    assert(client_ping(first_digest, online_fields, nonce, Some(control)) =~= client_ping(
        first_digest,
        online_fields,
        nonce,
        None,
    ) + bytes::le32(control));
}

/// A response is accepted for one sequence and one nonce only: those of the request it answers.
pub proof fn law_a_response_answers_one_request(
    response: Seq<u8>,
    sequence: u8,
    nonce: u16,
    other_sequence: u8,
    other_nonce: u16,
)
    requires
        challenge_refusal(response, sequence, nonce) is None,
    ensures
        challenge_refusal(response, other_sequence, other_nonce) is None <==> other_sequence
            == sequence && other_nonce == nonce,
        response[1] == challenge_request_frame(sequence, nonce, 0)[1],
        response.subrange(2, 4) == challenge_request_frame(sequence, nonce, 0).subrange(2, 4),
{
    let request = challenge_request_frame(sequence, nonce, 0);
    assert(request.subrange(2, 4) =~= bytes::le16(nonce));
    assert(response.subrange(2, 4) =~= bytes::le16(nonce));
}

/// Every byte of a challenge request: `01`, the number, the nonce with its low byte first, the
/// option, fifteen zeros.
pub proof fn law_the_layout_of_a_challenge_request(sequence: u8, nonce: u16, client_option: u8)
    ensures
        ({
            let frame = challenge_request_frame(sequence, nonce, client_option);
            &&& frame.len() == 20
            &&& frame[0] == 1
            &&& frame[1] == sequence
            &&& frame[2] as int + 256 * (frame[3] as int) == nonce
            &&& frame[4] == client_option
            &&& forall|i: int| 5 <= i < 20 ==> frame[i] == 0
        }),
{
}

/// When a challenge response is refused, and for what: too short before all else, then its type, its
/// number, its nonce. With none of these it is taken.
pub proof fn law_why_a_response_is_refused(response: Seq<u8>, sequence: u8, nonce: u16)
    ensures
        ({
            let refusal = challenge_refusal(response, sequence, nonce);
            let long = response.len() >= 44;
            let typed = long && response[0] == 2;
            let numbered = typed && response[1] == sequence;
            let known = numbered && response[2] as int + 256 * (response[3] as int) == nonce;
            &&& refusal == Some(ChallengeError::TooShort) <==> !long
            &&& refusal == Some(ChallengeError::UnexpectedType) <==> long && !typed
            &&& refusal == Some(ChallengeError::SequenceMismatch) <==> typed && !numbered
            &&& refusal == Some(ChallengeError::NonceMismatch) <==> numbered && !known
            &&& refusal is None <==> known
        }),
{
}

/// Every byte that the login prefix and the logout frame share: the kind, `01 00`, the password's
/// length, the digest, the password zero-filled to 36 bytes, the control status, the number, and
/// the MAC, each byte masked by the digest byte at its place.
pub proof fn law_the_layout_of_credentials(
    kind: u8,
    digest: Seq<u8>,
    password: Seq<u8>,
    status: u8,
    sequence: u8,
    mac: Seq<u8>,
)
    requires
        digest.len() == 16,
        mac.len() == 6,
        password.len() <= 36,
    ensures
        ({
            let block = credential_block(kind, digest, password, status, sequence, mac);
            &&& block.len() == 64
            &&& block[0] == kind && block[1] == 1 && block[2] == 0
            &&& block[3] == password.len()
            &&& forall|i: int| 0 <= i < 16 ==> block[4 + i] == #[trigger] digest[i]
            &&& forall|i: int|
                0 <= i < 36 ==> #[trigger] block[20 + i] == (if i < password.len() {
                    password[i]
                } else {
                    0
                })
            &&& block[56] == status
            &&& block[57] == sequence
            &&& forall|i: int| 0 <= i < 6 ==> block[58 + i] == #[trigger] mac[i] ^ digest[i]
        }),
{
}

/// A logout frame is the credentials under kind `06`, with the digest of `06 01`, the challenge and
/// the account up to a zero byte, then the sixteen online bytes: eighty bytes in all.
pub proof fn law_the_layout_of_a_logout_frame(
    challenge: Seq<u8>,
    account: Seq<u8>,
    password: Seq<u8>,
    status: u8,
    sequence: u8,
    mac: Seq<u8>,
    online: Seq<u8>,
)
    requires
        mac.len() == 6,
        online.len() == 16,
        bytes::until_nul(password).len() <= 36,
    ensures
        ({
            let frame = logout_frame(challenge, account, password, status, sequence, mac, online);
            let shown = bytes::until_nul(password);
            let digest = md5::md5(seq![6u8, 1u8] + challenge + bytes::until_nul(account));
            &&& frame.len() == 80
            &&& frame[0] == 6 && frame[1] == 1 && frame[2] == 0
            &&& frame[3] == shown.len()
            &&& forall|i: int| 0 <= i < 16 ==> frame[4 + i] == #[trigger] digest[i]
            &&& forall|i: int|
                0 <= i < 36 ==> #[trigger] frame[20 + i] == (if i < shown.len() {
                    shown[i]
                } else {
                    0
                })
            &&& frame[56] == status
            &&& frame[57] == sequence
            &&& forall|i: int| 0 <= i < 6 ==> frame[58 + i] == #[trigger] mac[i] ^ digest[i]
            &&& forall|i: int| 0 <= i < 16 ==> frame[64 + i] == #[trigger] online[i]
        }),
{
    let digest = logout_digest_of(challenge, account);
    let shown = bytes::until_nul(password);
    md5::lemma_md5_len(seq![0x06u8, 0x01u8] + challenge + bytes::until_nul(account));
    law_the_layout_of_credentials(0x06, digest, shown, status, sequence, mac);
    let block = credential_block(0x06, digest, shown, status, sequence, mac);
    let frame = logout_frame(challenge, account, password, status, sequence, mac, online);
    assert(frame =~= block + online);
    assert forall|i: int| 0 <= i < 36 implies #[trigger] frame[20 + i] == (if i < shown.len() {
        shown[i]
    } else {
        0
    }) by {
        assert(frame[20 + i] == block[20 + i]);
    }
}

/// The digests of a login: of `03 01`, the challenge and the account; and of `01`, the account, the
/// challenge and four zeros; the account up to a zero byte, and no more than sixteen bytes of it.
pub proof fn law_what_the_digests_cover(challenge: Seq<u8>, account: Seq<u8>, n: int)
    requires
        0 <= n <= account.len(),
        n <= 16,
        forall|i: int| 0 <= i < n ==> account[i] != 0,
        n == account.len() || n == 16 || account[n] == 0,
    ensures
        first_digest_of(challenge, account) == md5::md5(
            seq![3u8, 1u8] + challenge + account.take(n),
        ),
        second_digest_of(challenge, account) == md5::md5(
            seq![1u8] + account.take(n) + challenge + seq![0u8, 0u8, 0u8, 0u8],
        ),
{
    assert(bytes::zeros(4) =~= seq![0u8, 0u8, 0u8, 0u8]);
    assert(digest_account(account) == account.take(n)) by {
        lemma_cut_account(account, n);
    }
}

proof fn lemma_cut_account(account: Seq<u8>, n: int)
    requires
        0 <= n <= account.len(),
        n <= 16,
        forall|i: int| 0 <= i < n ==> account[i] != 0,
        n == account.len() || n == 16 || account[n] == 0,
    ensures
        digest_account(account) == account.take(n),
{
    if n == account.len() || account[n] == 0 {
        bytes::lemma_until_nul(account, n);
    } else {
        let rest = bytes::until_nul(account);
        lemma_until_nul_prefix(account, n);
        assert(rest.take(n) =~= account.take(n));
        if rest.len() == 16 {
            assert(rest.take(16) =~= rest);
        }
    }
}

proof fn lemma_until_nul_prefix(value: Seq<u8>, n: int)
    requires
        0 <= n <= value.len(),
        forall|i: int| 0 <= i < n ==> value[i] != 0,
    ensures
        bytes::until_nul(value).len() >= n,
        forall|i: int| 0 <= i < n ==> #[trigger] bytes::until_nul(value)[i] == value[i],
    decreases value.len(),
{
    if n > 0 {
        let rest = value.skip(1);
        assert forall|i: int| 0 <= i < n - 1 implies rest[i] != 0 by {
            assert(rest[i] == value[i + 1]);
        }
        lemma_until_nul_prefix(rest, n - 1);
        let all = bytes::until_nul(value);
        assert(all =~= seq![value[0]] + bytes::until_nul(rest));
        assert forall|i: int| 0 <= i < n implies #[trigger] all[i] == value[i] by {
            if i > 0 {
                assert(all[i] == bytes::until_nul(rest)[i - 1]);
            }
        }
    }
}

/// Every byte of the first 105 of a login frame behind its credentials: the second digest, how many
/// addresses there are, the addresses in four slots, zero-filled, and the first eight bytes of the
/// digest of everything before with `14 00 07 0b` behind it.
pub proof fn law_the_layout_of_the_login_core(
    challenge: Seq<u8>,
    account: Seq<u8>,
    password: Seq<u8>,
    status: u8,
    sequence: u8,
    mac: Seq<u8>,
    addresses: Seq<[u8; 4]>,
)
    requires
        mac.len() == 6,
        addresses.len() <= 4,
        bytes::until_nul(password).len() <= 36,
    ensures
        ({
            let core = login_core(challenge, account, password, status, sequence, mac, addresses);
            let shown = bytes::until_nul(password);
            let first = first_digest_of(challenge, account);
            let second = second_digest_of(challenge, account);
            let third = md5::md5(core.take(97) + seq![0x14u8, 0u8, 7u8, 0x0bu8]);
            &&& core.len() == 105
            &&& core.take(64) == credential_block(3, first, shown, status, sequence, mac)
            &&& forall|i: int| 0 <= i < 16 ==> core[64 + i] == #[trigger] second[i]
            &&& core[80] == addresses.len()
            &&& forall|k: int, j: int|
                0 <= k < 4 && 0 <= j < 4 ==> core[81 + 4 * k + j] == (if k < addresses.len() {
                    #[trigger] addresses[k]@[j]
                } else {
                    0
                })
            &&& forall|i: int| 0 <= i < 8 ==> core[97 + i] == #[trigger] third[i]
        }),
{
    let core = login_core(challenge, account, password, status, sequence, mac, addresses);
    let head = login_head(challenge, account, password, status, sequence, mac, addresses);
    let prefix = login_prefix(challenge, account, password, status, sequence, mac);
    let shown = bytes::until_nul(password);
    let first = first_digest_of(challenge, account);
    md5::lemma_md5_len(seq![0x03u8, 0x01u8] + challenge + digest_account(account));
    md5::lemma_md5_len(seq![0x01u8] + digest_account(account) + challenge + bytes::zeros(4));
    md5::lemma_md5_len(head + seq![0x14u8, 0x00u8, 0x07u8, 0x0bu8]);
    law_the_layout_of_credentials(3, first, shown, status, sequence, mac);
    assert(prefix.len() == 64);
    assert(head.len() == 97);
    assert(core.take(97) =~= head);
    assert(core.take(64) =~= prefix);
    lemma_joined(addresses);
    assert forall|k: int, j: int| 0 <= k < 4 && 0 <= j < 4 implies core[81 + 4 * k + j] == (if k
        < addresses.len() {
        #[trigger] addresses[k]@[j]
    } else {
        0
    }) by {
        assert(core[81 + 4 * k + j] == bytes::fitted(joined(addresses), 16)[4 * k + j]);
        if k < addresses.len() {
            assert(joined(addresses)[4 * k + j] == addresses[k]@[j]);
        }
    }
}

proof fn lemma_joined(addresses: Seq<[u8; 4]>)
    ensures
        joined(addresses).len() == 4 * addresses.len(),
        forall|k: int, j: int|
            0 <= k < addresses.len() && 0 <= j < 4 ==> joined(addresses)[4 * k + j]
                == #[trigger] addresses[k]@[j],
    decreases addresses.len(),
{
    if addresses.len() > 0 {
        let front = addresses.drop_last();
        lemma_joined(front);
        assert forall|k: int, j: int| 0 <= k < addresses.len() && 0 <= j < 4 implies joined(
            addresses,
        )[4 * k + j] == #[trigger] addresses[k]@[j] by {
            if k < front.len() {
                assert(front[k] == addresses[k]);
                assert(joined(front)[4 * k + j] == front[k]@[j]);
            }
        }
    }
}

/// The words of a packet are folded into a checksum one by one: four more bytes change the fold by
/// the word they spell, least significant byte first.
pub proof fn law_the_fold_goes_by_words(seed: u32, data: Seq<u8>, a: u8, b: u8, c: u8, d: u8)
    requires
        data.len() % 4 == 0,
    ensures
        xor_words(seed, data + seq![a, b, c, d], data.len() / 4 + 1) == xor_words(
            seed,
            data,
            data.len() / 4,
        ) ^ ((a as int + 256 * (b as int) + 65536 * (c as int) + 16777216 * (d as int)) as u32),
        xor_words(seed, Seq::empty(), 0) == seed,
{
    let more = data + seq![a, b, c, d];
    let n = data.len() / 4;
    lemma_words_of_a_beginning(seed, data, more, n);
    assert(more[4 * (n + 1) - 4] == a);
    assert(more[4 * (n + 1) - 3] == b);
    assert(more[4 * (n + 1) - 2] == c);
    assert(more[4 * (n + 1) - 1] == d);
}

proof fn lemma_words_of_a_beginning(seed: u32, data: Seq<u8>, more: Seq<u8>, n: nat)
    requires
        4 * n <= data.len() <= more.len(),
        forall|i: int| 0 <= i < data.len() ==> #[trigger] more[i] == data[i],
    ensures
        xor_words(seed, more, n) == xor_words(seed, data, n),
    decreases n,
{
    if n > 0 {
        lemma_words_of_a_beginning(seed, data, more, (n - 1) as nat);
        assert(more[4 * n - 4] == data[4 * n - 4]);
        assert(more[4 * n - 3] == data[4 * n - 3]);
        assert(more[4 * n - 2] == data[4 * n - 2]);
        assert(more[4 * n - 1] == data[4 * n - 1]);
    }
}

/// The word in the checksum slot of a finished frame is 1968 times the fold of the frame, from 1234
/// on, with `01 26 07 11` in the slot.
pub proof fn law_the_checksum_of_a_frame(packet: Seq<u8>, at: int)
    requires
        0 <= at,
        at + 4 <= packet.len(),
    ensures
        ({
            let done = checksummed(packet, at);
            let seeded = packet.subrange(0, at) + seq![0x01u8, 0x26u8, 0x07u8, 0x11u8]
                + packet.subrange(at + 4, packet.len() as int);
            &&& bytes::le_value(done.subrange(at, at + 4)) == xor_words(
                1234,
                seeded,
                packet.len() / 4,
            ) as nat * 1968 % 0x1_0000_0000
            &&& done.len() == packet.len()
            &&& forall|i: int|
                0 <= i < packet.len() && !(at <= i < at + 4) ==> #[trigger] done[i] == packet[i]
        }),
{
    let sum = login_checksum(packet, at);
    assert(bytes::le32(CHECKSUM_SEED) =~= seq![0x01u8, 0x26u8, 0x07u8, 0x11u8]);
    bytes::lemma_le32_roundtrip(sum);
    law_checksum_only_fills_its_slot(packet, at, at);
}

/// Every byte of the client ping: `ff`, the digest, three zeros, the online bytes, the nonce with its
/// low byte first, and the access control with its low byte first where there is one.
pub proof fn law_the_layout_of_a_ping(
    digest: Seq<u8>,
    online: Seq<u8>,
    nonce: u16,
    control: Option<u32>,
)
    requires
        digest.len() == 16,
        online.len() == 16,
    ensures
        ({
            let ping = client_ping(digest, online, nonce, control);
            &&& ping.len() == (if control is Some {
                42int
            } else {
                38
            })
            &&& ping[0] == 0xff
            &&& forall|i: int| 0 <= i < 16 ==> ping[1 + i] == #[trigger] digest[i]
            &&& ping[17] == 0 && ping[18] == 0 && ping[19] == 0
            &&& forall|i: int| 0 <= i < 16 ==> ping[20 + i] == #[trigger] online[i]
            &&& ping[36] as int + 256 * (ping[37] as int) == nonce
            &&& control matches Some(word) ==> bytes::le_value(ping.skip(38)) == word
        }),
{
    let ping = client_ping(digest, online, nonce, control);
    if let Some(word) = control {
        bytes::lemma_le32_roundtrip(word);
        assert(ping.skip(38) =~= bytes::le32(word));
    }
}

/// The 328 bytes of the base frame: the core, then one byte, four zeros, the 200-byte block, two
/// bytes and the pair `02 0c`, four zeros for the checksum, a number with its low byte first, the
/// MAC and two zeros.
pub proof fn law_the_layout_of_the_base_frame(fields: LoginBaseFields<'_>)
    requires
        fields.ipv4_addresses@.len() <= 4,
        bytes::until_nul(fields.password@).len() <= 36,
    ensures
        ({
            let body = login_base_body(fields);
            let core = login_core(
                fields.challenge@,
                fields.account@,
                fields.password@,
                fields.control_check_status,
                fields.sequence,
                fields.mac@,
                fields.ipv4_addresses@,
            );
            &&& body.len() == 328
            &&& body.take(105) == core
            &&& body[105] == fields.byte_105
            &&& forall|i: int| 106 <= i < 110 ==> #[trigger] body[i] == 0
            &&& forall|i: int| 0 <= i < 200 ==> body[110 + i] == #[trigger] fields.block_110@[i]
            &&& body[310] == fields.byte_310
            &&& body[311] == fields.byte_311
            &&& body[312] == 2
            &&& body[313] == 12
            &&& forall|i: int| 314 <= i < 318 ==> #[trigger] body[i] == 0
            &&& body[318] + 256 * body[319] == fields.field_318
            &&& forall|i: int| 0 <= i < 6 ==> body[320 + i] == #[trigger] fields.mac@[i]
            &&& body[326] == 0
            &&& body[327] == 0
        }),
{
    law_the_layout_of_the_login_core(
        fields.challenge@,
        fields.account@,
        fields.password@,
        fields.control_check_status,
        fields.sequence,
        fields.mac@,
        fields.ipv4_addresses@,
    );
    let core = login_core(
        fields.challenge@,
        fields.account@,
        fields.password@,
        fields.control_check_status,
        fields.sequence,
        fields.mac@,
        fields.ipv4_addresses@,
    );
    lemma_base_tail(
        core,
        fields.byte_105,
        fields.block_110@,
        fields.byte_310,
        fields.byte_311,
        fields.field_318,
        fields.mac@,
    );
}

proof fn lemma_base_tail(
    core: Seq<u8>,
    one: u8,
    block: Seq<u8>,
    two: u8,
    three: u8,
    number: u16,
    mac: Seq<u8>,
)
    requires
        core.len() == 105,
        block.len() == 200,
        mac.len() == 6,
    ensures
        ({
            let body = core + seq![one] + bytes::zeros(4) + block + seq![two, three, 0x02u8, 0x0cu8]
                + bytes::zeros(4) + bytes::le16(number) + mac + bytes::zeros(2);
            &&& body.len() == 328
            &&& body.take(105) == core
            &&& body[105] == one
            &&& forall|i: int| 106 <= i < 110 ==> #[trigger] body[i] == 0
            &&& forall|i: int| 0 <= i < 200 ==> body[110 + i] == #[trigger] block[i]
            &&& body[310] == two
            &&& body[311] == three
            &&& body[312] == 2
            &&& body[313] == 12
            &&& forall|i: int| 314 <= i < 318 ==> #[trigger] body[i] == 0
            &&& body[318] + 256 * body[319] == number
            &&& forall|i: int| 0 <= i < 6 ==> body[320 + i] == #[trigger] mac[i]
            &&& body[326] == 0
            &&& body[327] == 0
        }),
{
    let body = core + seq![one] + bytes::zeros(4) + block + seq![two, three, 0x02u8, 0x0cu8]
        + bytes::zeros(4) + bytes::le16(number) + mac + bytes::zeros(2);
    assert(body.take(105) =~= core);
    assert(body[318] == bytes::le16(number)[0]);
    assert(body[319] == bytes::le16(number)[1]);
}

} // verus!
