//! The login frame of the campus profile, its digests and the challenge nonce.
//!
//! The profile is kept apart from `protocol`, which holds the raw wire fragments: the campus
//! frame hashes the password where those hash the account, adds a rotated copy of the
//! password, and walks its checksum differently.

use vstd::prelude::*;

use crate::bytes;
use crate::md5;

verus! {

/// The account lies in a field of this many bytes. A longer name would spill into the
/// control-status byte, so it is refused.
pub const ACCOUNT_FIELD_LEN: usize = 36;

/// Each password byte is masked by the digest byte at the same index, so a password longer
/// than the digest cannot be sent.
pub const MAX_PASSWORD_LEN: usize = 16;

/// The host-name field of the login frame.
pub const HOSTNAME_FIELD_LEN: usize = 32;

/// The operating-system block at offset 162: five little-endian words, then the `DrCOM` marker.
pub const OS_FINGERPRINT: [u8; 29] = [
    0x94, 0x00, 0x00, 0x00, 0x06, 0x00, 0x00, 0x00, 0x02, 0x00, 0x00, 0x00, 0xf0, 0x23, 0x00, 0x00,
    0x02, 0x00, 0x00, 0x00, 0x44, 0x72, 0x43, 0x4f, 0x4d, 0x00, 0xcf, 0x07, 0x68,
];

/// The fixed client key at offset 246: forty ASCII hexadecimal digits.
pub const CLIENT_KEY: [u8; 40] = [
    0x33, 0x64, 0x63, 0x37, 0x39, 0x66, 0x35, 0x32, 0x31, 0x32,
    0x65, 0x38, 0x31, 0x37, 0x30, 0x61, 0x63, 0x66, 0x61, 0x39,
    0x65, 0x63, 0x39, 0x35, 0x66, 0x31, 0x64, 0x37, 0x34, 0x39,
    0x31, 0x36, 0x35, 0x34, 0x32, 0x62, 0x65, 0x37, 0x62, 0x31,
];

/// The low 48 bits of a MAC given as a number.
pub const MAC_MASK: u64 = 0x0000_ffff_ffff_ffff;

/// What a login frame states about the machine that logs in.
#[derive(Clone, Debug, PartialEq, Eq)]
pub struct ReferenceLoginConfig {
    /// IPv4 address of the adapter the authentication socket is bound to.
    pub host_ipv4: [u8; 4],
    /// MAC address as a number.
    pub mac: u64,
    pub hostname: Vec<u8>,
    pub primary_dns: [u8; 4],
    pub dhcp_server: [u8; 4],
    pub auth_version: [u8; 2],
    pub control_status: u8,
    pub adapter_num: u8,
    pub ip_dog: u8,
}

#[derive(Debug, Clone, Copy, PartialEq, Eq, Structural)]
pub enum BuildError {
    PasswordTooLong,
    UsernameTooLong,
}

/// The mathematical content of a `ReferenceLoginConfig`.
pub struct LoginProfile {
    pub host_ipv4: Seq<u8>,
    pub mac: u64,
    pub hostname: Seq<u8>,
    pub primary_dns: Seq<u8>,
    pub dhcp_server: Seq<u8>,
    pub auth_version: Seq<u8>,
    pub control_status: u8,
    pub adapter_num: u8,
    pub ip_dog: u8,
}

impl LoginProfile {
    /// Addresses are four bytes and a version is two.
    pub open spec fn valid(self) -> bool {
        &&& self.host_ipv4.len() == 4
        &&& self.primary_dns.len() == 4
        &&& self.dhcp_server.len() == 4
        &&& self.auth_version.len() == 2
    }
}

impl View for ReferenceLoginConfig {
    type V = LoginProfile;

    open spec fn view(&self) -> LoginProfile {
        LoginProfile {
            host_ipv4: self.host_ipv4@,
            mac: self.mac,
            hostname: self.hostname@,
            primary_dns: self.primary_dns@,
            dhcp_server: self.dhcp_server@,
            auth_version: self.auth_version@,
            control_status: self.control_status,
            adapter_num: self.adapter_num,
            ip_dog: self.ip_dog,
        }
    }
}

/// `MD5(03 01 || salt || password)`.
pub open spec fn first_digest_of(salt: Seq<u8>, password: Seq<u8>) -> Seq<u8> {
    md5::md5(seq![0x03u8, 0x01u8] + salt + password)
}

/// `MD5(01 || password || salt || 00 00 00 00)`.
pub open spec fn second_digest_of(salt: Seq<u8>, password: Seq<u8>) -> Seq<u8> {
    md5::md5(seq![0x01u8] + password + salt + bytes::zeros(4))
}

/// `byte` rotated left by three bits.
pub open spec fn rotated3(byte: u8) -> u8 {
    (byte << 3) | (byte >> 5)
}

/// Each password byte masked by the first digest and rotated left by three bits.
pub open spec fn rotated(first: Seq<u8>, password: Seq<u8>) -> Seq<u8> {
    Seq::new(password.len(), |i: int| rotated3(first[i] ^ password[i]))
}

/// The shortest big-endian byte string of `value`; zero is one zero byte.
pub open spec fn dump_bytes(value: u64) -> Seq<u8>
    decreases value,
{
    if value < 256 {
        seq![value as u8]
    } else {
        dump_bytes(value / 256).push((value % 256) as u8)
    }
}

/// `dump_bytes(value)` with zero bytes in front of it up to `width` bytes.
pub open spec fn widened(value: u64, width: nat) -> Seq<u8> {
    let shortest = dump_bytes(value);
    if shortest.len() < width {
        bytes::zeros((width - shortest.len()) as nat) + shortest
    } else {
        shortest
    }
}

/// The first six digest bytes read as one big-endian number.
pub open spec fn mac_digest(first: Seq<u8>) -> u64 {
    (((((first[0] as int * 256 + first[1] as int) * 256 + first[2] as int) * 256
        + first[3] as int) * 256 + first[4] as int) * 256 + first[5] as int) as u64
}

/// The MAC number masked by the first six digest bytes, as six bytes.
pub open spec fn mac_field(first: Seq<u8>, mac: u64) -> Seq<u8> {
    widened(mac_digest(first) ^ (mac & MAC_MASK), 6)
}

/// Whether the four bytes of `data` from `offset` on hold a newline byte.
pub open spec fn breaks_window(data: Seq<u8>, offset: int) -> bool {
    ||| data[offset] == 0x0a
    ||| data[offset + 1] == 0x0a
    ||| data[offset + 2] == 0x0a
    ||| data[offset + 3] == 0x0a
}

/// The checksum walk from `offset` on: each window of four bytes is folded into `value`, but a
/// window that holds a newline byte is left out and the walk moves on by one byte instead of
/// four.
pub open spec fn checksum_walk(data: Seq<u8>, offset: int, value: u32) -> u32
    decreases data.len() - offset,
{
    if offset + 4 > data.len() {
        value
    } else if breaks_window(data, offset) {
        checksum_walk(data, offset + 1, value)
    } else {
        checksum_walk(
            data,
            offset + 4,
            value ^ bytes::word32(
                data[offset],
                data[offset + 1],
                data[offset + 2],
                data[offset + 3],
            ),
        )
    }
}

/// The login checksum of `data`.
pub open spec fn checksum_of(data: Seq<u8>) -> Seq<u8> {
    bytes::le32(checksum_walk(data, 0, 1234).wrapping_mul(1968))
}

/// The zero bytes in front of the frame's trailer: one for each four password bytes, but none
/// for a password of sixteen bytes.
pub open spec fn password_padding(password_len: nat) -> nat {
    if password_len / 4 != 4 {
        password_len / 4
    } else {
        0
    }
}

/// Offsets 0 to 97: what the third digest covers.
pub open spec fn login_head(
    salt: Seq<u8>,
    username: Seq<u8>,
    password: Seq<u8>,
    config: LoginProfile,
) -> Seq<u8> {
    let first = first_digest_of(salt, password);
    seq![0x03u8, 0x01u8, 0x00u8, (username.len() + 20) as u8] + first + bytes::fitted(
        username,
        ACCOUNT_FIELD_LEN as nat,
    ) + seq![config.control_status, config.adapter_num] + mac_field(first, config.mac)
        + second_digest_of(salt, password) + seq![0x01u8] + config.host_ipv4 + bytes::zeros(12)
}

/// Offsets 97 to 310: third digest, address flag, host name, name servers, fingerprint, key.
pub open spec fn login_middle(head: Seq<u8>, config: LoginProfile) -> Seq<u8> {
    md5::md5(head + seq![0x14u8, 0x00u8, 0x07u8, 0x0bu8]).take(8) + seq![config.ip_dog]
        + bytes::zeros(4) + bytes::fitted(config.hostname, HOSTNAME_FIELD_LEN as nat)
        + config.primary_dns + config.dhcp_server + bytes::zeros(12) + OS_FINGERPRINT@
        + bytes::zeros(55) + CLIENT_KEY@ + bytes::zeros(24)
}

/// Offsets 310 on, up to the checksum: version, password length, rotated password, `02 0c`.
pub open spec fn login_secret(
    salt: Seq<u8>,
    password: Seq<u8>,
    config: LoginProfile,
) -> Seq<u8> {
    config.auth_version + seq![0x00u8, password.len() as u8] + rotated(
        first_digest_of(salt, password),
        password,
    ) + seq![0x02u8, 0x0cu8]
}

/// The frame up to its checksum.
pub open spec fn login_body(
    salt: Seq<u8>,
    username: Seq<u8>,
    password: Seq<u8>,
    config: LoginProfile,
) -> Seq<u8> {
    let head = login_head(salt, username, password, config);
    head + login_middle(head, config) + login_secret(salt, password, config)
}

/// The complete login frame: the body, the checksum of the body with the seed block and the MAC
/// behind it, `00 00`, the MAC, the password padding, `60 a2`, 28 zero bytes.
pub open spec fn login_frame(
    salt: Seq<u8>,
    username: Seq<u8>,
    password: Seq<u8>,
    config: LoginProfile,
) -> Seq<u8> {
    let body = login_body(salt, username, password, config);
    let mac = dump_bytes(config.mac);
    body + checksum_of(body + seq![0x01u8, 0x26u8, 0x07u8, 0x11u8, 0x00u8, 0x00u8] + mac)
        + seq![0x00u8, 0x00u8] + mac + bytes::zeros(password_padding(password.len()))
        + seq![0x60u8, 0xa2u8] + bytes::zeros(28)
}

/// The digest that the login frame, the MAC mask and every primary keep-alive share.
pub fn first_digest(salt: &[u8], password: &[u8]) -> (digest: [u8; 16])
    ensures
        digest@ == first_digest_of(salt@, password@),
{
    let mut input: Vec<u8> = Vec::new();
    bytes::append(&mut input, &[0x03, 0x01]);
    assert(input@ =~= seq![0x03u8, 0x01u8]);
    bytes::append(&mut input, salt);
    bytes::append(&mut input, password);
    md5::digest(&input)
}

/// The digest at offset 64.
pub fn second_digest(salt: &[u8], password: &[u8]) -> (digest: [u8; 16])
    ensures
        digest@ == second_digest_of(salt@, password@),
{
    let mut input: Vec<u8> = Vec::new();
    input.push(0x01);
    assert(input@ =~= seq![0x01u8]);
    bytes::append(&mut input, password);
    bytes::append(&mut input, salt);
    bytes::append_zeros(&mut input, 4);
    md5::digest(&input)
}

/// Each password byte masked by the first digest and rotated left by three bits.
pub fn rotated_password(first: &[u8; 16], password: &[u8]) -> (field: Vec<u8>)
    requires
        password@.len() <= MAX_PASSWORD_LEN,
    ensures
        field@ == rotated(first@, password@),
{
    let mut field: Vec<u8> = Vec::new();
    let mut i: usize = 0;
    while i < password.len()
        invariant
            password@.len() <= 16,
            i <= password@.len(),
            field@.len() == i,
            forall|j: int| 0 <= j < i ==> field@[j] == rotated3(first@[j] ^ password@[j]),
        decreases password@.len() - i,
    {
        let masked: u8 = first[i] ^ password[i];
        field.push((masked << 3) | (masked >> 5));
        i += 1;
    }
    assert(field@ =~= rotated(first@, password@));
    field
}

/// The shortest big-endian byte string of `value`. A MAC whose most significant byte is zero
/// gives five bytes, not six.
pub fn dump(value: u64) -> (shortest: Vec<u8>)
    ensures
        shortest@ == dump_bytes(value),
    decreases value,
{
    if value < 256 {
        let mut shortest: Vec<u8> = Vec::new();
        shortest.push(value as u8);
        assert(shortest@ =~= dump_bytes(value));
        shortest
    } else {
        let mut shortest = dump(value / 256);
        shortest.push((value % 256) as u8);
        shortest
    }
}

/// `dump(mac)` with zero bytes in front of it up to `width` bytes.
pub fn minimal_mac_bytes(mac: u64, width: usize) -> (field: Vec<u8>)
    ensures
        field@ == widened(mac, width as nat),
{
    let shortest = dump(mac);
    if shortest.len() < width {
        let mut field: Vec<u8> = Vec::new();
        bytes::append_zeros(&mut field, width - shortest.len());
        bytes::append(&mut field, &shortest);
        assert(field@ =~= widened(mac, width as nat));
        field
    } else {
        shortest
    }
}

/// The login checksum of `data`, little-endian.
pub fn checksum(data: &[u8]) -> (field: [u8; 4])
    ensures
        field@ == checksum_of(data@),
{
    let total: usize = data.len();
    let mut value: u32 = 1234;
    let mut offset: usize = 0;
    while total >= 4 && offset <= total - 4
        invariant
            total == data@.len(),
            offset <= total,
            checksum_walk(data@, offset as int, value) == checksum_walk(data@, 0, 1234),
        decreases total - offset,
    {
        if data[offset] == 0x0a || data[offset + 1] == 0x0a || data[offset + 2] == 0x0a
            || data[offset + 3] == 0x0a {
            offset += 1;
        } else {
            value = value ^ bytes::word32_of(
                data[offset],
                data[offset + 1],
                data[offset + 2],
                data[offset + 3],
            );
            offset += 4;
        }
    }
    bytes::le32_bytes(value.wrapping_mul(1968))
}

/// `value` cut or zero-filled to `width` bytes.
pub fn padded(value: &[u8], width: usize) -> (field: Vec<u8>)
    ensures
        field@ == bytes::fitted(value@, width as nat),
{
    bytes::fit(value, width)
}

/// The challenge nonce: Unix seconds modulo `0xffff`.
pub fn challenge_nonce(unix_seconds: u64) -> (nonce: u16)
    ensures
        nonce == unix_seconds % 0xffff,
{
    (unix_seconds % 0xffff) as u16
}

/// The low six bytes of a MAC number, most significant first.
pub fn mac_octets(mac: u64) -> (octets: [u8; 6])
    ensures
        octets@ == be_bytes(mac, 6),
{
    let octets = [
        (mac / 0x100_0000_0000 % 256) as u8,
        (mac / 0x1_0000_0000 % 256) as u8,
        (mac / 0x100_0000 % 256) as u8,
        (mac / 0x1_0000 % 256) as u8,
        (mac / 0x100 % 256) as u8,
        (mac % 256) as u8,
    ];
    proof {
        lemma_be_six(mac);
        assert(octets@ =~= be_bytes(mac, 6));
    }
    octets
}

fn mac_digest_value(first: &[u8; 16]) -> (value: u64)
    ensures
        value == mac_digest(first@),
        value <= MAC_MASK,
{
    ((((first[0] as u64 * 256 + first[1] as u64) * 256 + first[2] as u64) * 256 + first[3] as u64)
        * 256 + first[4] as u64) * 256 + first[5] as u64
}

fn head_bytes(
    salt: &[u8],
    username: &[u8],
    password: &[u8],
    config: &ReferenceLoginConfig,
    first: &[u8; 16],
) -> (frame: Vec<u8>)
    requires
        username@.len() <= ACCOUNT_FIELD_LEN,
        first@ == first_digest_of(salt@, password@),
    ensures
        frame@ == login_head(salt@, username@, password@, config@),
{
    let mac_mask = minimal_mac_bytes(mac_digest_value(first) ^ (config.mac & MAC_MASK), 6);
    let mut frame: Vec<u8> = Vec::new();
    let start = [0x03u8, 0x01, 0x00, (username.len() + 20) as u8];
    bytes::append(&mut frame, &start);
    assert(frame@ =~= seq![0x03u8, 0x01u8, 0x00u8, (username@.len() + 20) as u8]);
    bytes::append(&mut frame, first);
    bytes::append(&mut frame, &padded(username, ACCOUNT_FIELD_LEN));
    let status = [config.control_status, config.adapter_num];
    assert(status@ =~= seq![config.control_status, config.adapter_num]);
    bytes::append(&mut frame, &status);
    bytes::append(&mut frame, &mac_mask);
    bytes::append(&mut frame, &second_digest(salt, password));
    let count = [0x01u8];
    assert(count@ =~= seq![0x01u8]);
    bytes::append(&mut frame, &count);
    bytes::append(&mut frame, &config.host_ipv4);
    bytes::append_zeros(&mut frame, 12);
    frame
}

fn middle_bytes(head: &Vec<u8>, config: &ReferenceLoginConfig) -> (part: Vec<u8>)
    ensures
        part@ == login_middle(head@, config@),
{
    let mut third_input: Vec<u8> = Vec::new();
    bytes::append(&mut third_input, head);
    assert(third_input@ =~= head@);
    let marker = [0x14u8, 0x00, 0x07, 0x0b];
    assert(marker@ =~= seq![0x14u8, 0x00u8, 0x07u8, 0x0bu8]);
    bytes::append(&mut third_input, &marker);
    let third = md5::digest(&third_input);
    let mut part: Vec<u8> = Vec::new();
    bytes::append(&mut part, vstd::slice::slice_subrange(&third, 0, 8));
    assert(part@ =~= third@.take(8));
    let dog = [config.ip_dog];
    assert(dog@ =~= seq![config.ip_dog]);
    bytes::append(&mut part, &dog);
    bytes::append_zeros(&mut part, 4);
    bytes::append(&mut part, &padded(&config.hostname, HOSTNAME_FIELD_LEN));
    bytes::append(&mut part, &config.primary_dns);
    bytes::append(&mut part, &config.dhcp_server);
    bytes::append_zeros(&mut part, 12);
    bytes::append(&mut part, &OS_FINGERPRINT);
    bytes::append_zeros(&mut part, 55);
    bytes::append(&mut part, &CLIENT_KEY);
    bytes::append_zeros(&mut part, 24);
    part
}

fn secret_bytes(
    salt: &[u8],
    password: &[u8],
    config: &ReferenceLoginConfig,
    first: &[u8; 16],
) -> (part: Vec<u8>)
    requires
        password@.len() <= MAX_PASSWORD_LEN,
        first@ == first_digest_of(salt@, password@),
    ensures
        part@ == login_secret(salt@, password@, config@),
{
    let mut part: Vec<u8> = Vec::new();
    bytes::append(&mut part, &config.auth_version);
    assert(part@ =~= config.auth_version@);
    let length = [0x00u8, password.len() as u8];
    assert(length@ =~= seq![0x00u8, password@.len() as u8]);
    bytes::append(&mut part, &length);
    bytes::append(&mut part, &rotated_password(first, password));
    let end = [0x02u8, 0x0c];
    assert(end@ =~= seq![0x02u8, 0x0cu8]);
    bytes::append(&mut part, &end);
    part
}

/// Builds the complete login frame.
///
/// | offset | field |
/// | --- | --- |
/// | 0 | `03 01 00`, then account length + 20 |
/// | 4 | first digest |
/// | 20 | account, padded to 36 bytes |
/// | 56 | control status, adapter number |
/// | 58 | MAC masked by the first digest, six bytes |
/// | 64 | second digest |
/// | 80 | address count (`01`), host IPv4, three empty address slots |
/// | 97 | `MD5(frame[..97] || 14 00 07 0b)[..8]` |
/// | 105 | address flag, four zero bytes |
/// | 110 | host name, padded to 32 bytes |
/// | 142 | primary DNS, DHCP server, secondary DNS, padding |
/// | 162 | fingerprint, 55 zero bytes, client key, 24 zero bytes |
/// | 310 | negotiated version, `00`, password length |
/// | 314 | rotated password |
/// | | `02 0c`, checksum, `00 00`, MAC, password padding, `60 a2`, 28 zero bytes |
pub fn build_login_packet(
    salt: &[u8],
    username: &[u8],
    password: &[u8],
    config: &ReferenceLoginConfig,
) -> (result: Result<Vec<u8>, BuildError>)
    ensures
        username@.len() > ACCOUNT_FIELD_LEN ==> result == Err::<Vec<u8>, BuildError>(
            BuildError::UsernameTooLong,
        ),
        username@.len() <= ACCOUNT_FIELD_LEN && password@.len() > MAX_PASSWORD_LEN ==> result
            == Err::<Vec<u8>, BuildError>(BuildError::PasswordTooLong),
        username@.len() <= ACCOUNT_FIELD_LEN && password@.len() <= MAX_PASSWORD_LEN ==> (
        result matches Ok(frame) && frame@ == login_frame(salt@, username@, password@, config@)),
{
    if username.len() > ACCOUNT_FIELD_LEN {
        return Err(BuildError::UsernameTooLong);
    }
    if password.len() > MAX_PASSWORD_LEN {
        return Err(BuildError::PasswordTooLong);
    }
    let first = first_digest(salt, password);
    let mut frame = head_bytes(salt, username, password, config, &first);
    let middle = middle_bytes(&frame, config);
    bytes::append(&mut frame, &middle);
    bytes::append(&mut frame, &secret_bytes(salt, password, config, &first));
    let ghost body = frame@;
    assert(body == login_body(salt@, username@, password@, config@));

    let mac = dump(config.mac);
    let mut checksum_input: Vec<u8> = Vec::new();
    bytes::append(&mut checksum_input, &frame);
    assert(checksum_input@ =~= body);
    let seed = [0x01u8, 0x26, 0x07, 0x11, 0x00, 0x00];
    assert(seed@ =~= seq![0x01u8, 0x26u8, 0x07u8, 0x11u8, 0x00u8, 0x00u8]);
    bytes::append(&mut checksum_input, &seed);
    bytes::append(&mut checksum_input, &mac);
    bytes::append(&mut frame, &checksum(&checksum_input));

    let gap = [0x00u8, 0x00];
    assert(gap@ =~= seq![0x00u8, 0x00u8]);
    bytes::append(&mut frame, &gap);
    bytes::append(&mut frame, &mac);
    let groups: usize = password.len() / 4;
    let padding: usize = if groups != 4 {
        groups
    } else {
        0
    };
    bytes::append_zeros(&mut frame, padding);
    let trailer = [0x60u8, 0xa2];
    assert(trailer@ =~= seq![0x60u8, 0xa2u8]);
    bytes::append(&mut frame, &trailer);
    bytes::append_zeros(&mut frame, 28);
    Ok(frame)
}

/// The number that a big-endian byte string spells.
pub open spec fn be_value(data: Seq<u8>) -> nat
    decreases data.len(),
{
    if data.len() == 0 {
        0
    } else {
        be_value(data.drop_last()) * 256 + data.last() as nat
    }
}

/// The low `width` bytes of `value`, most significant first.
pub open spec fn be_bytes(value: u64, width: nat) -> Seq<u8>
    decreases width,
{
    if width == 0 {
        Seq::empty()
    } else {
        be_bytes(value / 256, (width - 1) as nat).push((value % 256) as u8)
    }
}

/// Whether `width` bytes are enough for `value`.
pub open spec fn fits(value: u64, width: nat) -> bool
    decreases width,
{
    if width == 0 {
        value == 0
    } else {
        fits(value / 256, (width - 1) as nat)
    }
}

/// The dump of a number spells that number, and does so without a leading zero byte unless the
/// number itself is zero.
pub proof fn law_dump_is_the_shortest_spelling(value: u64)
    ensures
        be_value(dump_bytes(value)) == value,
        1 <= dump_bytes(value).len() <= 8,
        dump_bytes(value)[0] == 0 ==> value == 0 && dump_bytes(value).len() == 1,
{
    lemma_dump(value);
    reveal_with_fuel(fits, 9);
    lemma_dump_len(value, 8);
}

proof fn lemma_dump(value: u64)
    ensures
        be_value(dump_bytes(value)) == value,
        1 <= dump_bytes(value).len(),
        dump_bytes(value)[0] == 0 ==> value == 0 && dump_bytes(value).len() == 1,
    decreases value,
{
    reveal_with_fuel(be_value, 2);
    if value < 256 {
        let one = seq![value as u8];
        assert(one.drop_last() =~= Seq::<u8>::empty());
    } else {
        lemma_dump(value / 256);
        let shortest = dump_bytes(value);
        assert(shortest.drop_last() =~= dump_bytes(value / 256));
    }
}

proof fn lemma_dump_len(value: u64, width: nat)
    requires
        width >= 1,
        fits(value, width),
    ensures
        dump_bytes(value).len() <= width,
    decreases width,
{
    if value >= 256 {
        if width == 1 {
            assert(fits(value / 256, 0));
        } else {
            lemma_dump_len(value / 256, (width - 1) as nat);
        }
    }
}

proof fn lemma_widened(value: u64, width: nat)
    requires
        width >= 1,
        fits(value, width),
    ensures
        widened(value, width) == be_bytes(value, width),
    decreases width,
{
    lemma_dump_len(value, width);
    if value < 256 {
        lemma_be_zero((width - 1) as nat);
        assert(value / 256 == 0);
        assert(widened(value, width) =~= be_bytes(value, width));
    } else {
        if width == 1 {
            assert(fits(value / 256, 0));
        }
        lemma_widened(value / 256, (width - 1) as nat);
        lemma_dump_len(value / 256, (width - 1) as nat);
        assert(widened(value, width) =~= be_bytes(value, width));
    }
}

proof fn lemma_be_zero(width: nat)
    ensures
        be_bytes(0, width) == bytes::zeros(width),
    decreases width,
{
    if width > 0 {
        lemma_be_zero((width - 1) as nat);
    }
    assert(be_bytes(0, width) =~= bytes::zeros(width));
}

proof fn lemma_six_bytes(value: u64)
    requires
        value <= MAC_MASK,
    ensures
        fits(value, 6),
{
    reveal_with_fuel(fits, 7);
}

proof fn lemma_be_six(value: u64)
    ensures
        be_bytes(value, 6) == seq![
            (value / 0x100_0000_0000 % 256) as u8,
            (value / 0x1_0000_0000 % 256) as u8,
            (value / 0x100_0000 % 256) as u8,
            (value / 0x1_0000 % 256) as u8,
            (value / 0x100 % 256) as u8,
            (value % 256) as u8,
        ],
{
    reveal_with_fuel(be_bytes, 7);
    assert(be_bytes(value, 6) =~= seq![
        (value / 0x100_0000_0000 % 256) as u8,
        (value / 0x1_0000_0000 % 256) as u8,
        (value / 0x100_0000 % 256) as u8,
        (value / 0x1_0000 % 256) as u8,
        (value / 0x100 % 256) as u8,
        (value % 256) as u8,
    ]);
}

proof fn lemma_digest_bytes(digest: u64, b0: u8, b1: u8, b2: u8, b3: u8, b4: u8, b5: u8)
    requires
        digest == ((((b0 as int * 256 + b1 as int) * 256 + b2 as int) * 256 + b3 as int) * 256
            + b4 as int) * 256 + b5 as int,
    ensures
        digest <= MAC_MASK,
        digest / 0x100_0000_0000 % 256 == b0,
        digest / 0x1_0000_0000 % 256 == b1,
        digest / 0x100_0000 % 256 == b2,
        digest / 0x1_0000 % 256 == b3,
        digest / 0x100 % 256 == b4,
        digest % 256 == b5,
{
    let c0 = b0 as u64;
    let c1 = b1 as u64;
    let c2 = b2 as u64;
    let c3 = b3 as u64;
    let c4 = b4 as u64;
    let c5 = b5 as u64;
    assert({
        &&& digest / 0x100_0000_0000 % 256 == c0
        &&& digest / 0x1_0000_0000 % 256 == c1
        &&& digest / 0x100_0000 % 256 == c2
        &&& digest / 0x1_0000 % 256 == c3
        &&& digest / 0x100 % 256 == c4
        &&& digest % 256 == c5
    }) by (bit_vector)
        requires
            c0 < 256,
            c1 < 256,
            c2 < 256,
            c3 < 256,
            c4 < 256,
            c5 < 256,
            digest == c0 * 0x100_0000_0000 + c1 * 0x1_0000_0000 + c2 * 0x100_0000 + c3 * 0x1_0000
                + c4 * 0x100 + c5,
    ;
}

/// The MAC field of the login frame is always six bytes: the low six MAC bytes, each masked by
/// the corresponding byte of the first digest.
pub proof fn law_mac_field_is_the_masked_mac(first: Seq<u8>, mac: u64)
    requires
        first.len() == 16,
    ensures
        mac_field(first, mac) == crate::protocol::masked_mac(be_bytes(mac, 6), first),
        mac_field(first, mac).len() == 6,
{
    let digest = mac_digest(first);
    let low = mac & MAC_MASK;
    let value = digest ^ low;
    assert(digest <= MAC_MASK);
    assert(value <= 0x0000_ffff_ffff_ffff) by (bit_vector)
        requires
            value == digest ^ (mac & 0x0000_ffff_ffff_ffff),
            digest <= 0x0000_ffff_ffff_ffff,
    ;
    lemma_six_bytes(value);
    lemma_widened(value, 6);
    lemma_be_six(value);
    lemma_be_six(mac);
    assert({
        &&& (value / 0x100_0000_0000 % 256) as u8 == (mac / 0x100_0000_0000 % 256) as u8 ^ (digest
            / 0x100_0000_0000 % 256) as u8
        &&& (value / 0x1_0000_0000 % 256) as u8 == (mac / 0x1_0000_0000 % 256) as u8 ^ (digest
            / 0x1_0000_0000 % 256) as u8
        &&& (value / 0x100_0000 % 256) as u8 == (mac / 0x100_0000 % 256) as u8 ^ (digest
            / 0x100_0000 % 256) as u8
        &&& (value / 0x1_0000 % 256) as u8 == (mac / 0x1_0000 % 256) as u8 ^ (digest / 0x1_0000
            % 256) as u8
        &&& (value / 0x100 % 256) as u8 == (mac / 0x100 % 256) as u8 ^ (digest / 0x100 % 256) as u8
        &&& (value % 256) as u8 == (mac % 256) as u8 ^ (digest % 256) as u8
    }) by (bit_vector)
        requires
            value == digest ^ (mac & 0x0000_ffff_ffff_ffff),
    ;
    lemma_digest_bytes(digest, first[0], first[1], first[2], first[3], first[4], first[5]);
    assert(mac_field(first, mac) =~= crate::protocol::masked_mac(be_bytes(mac, 6), first));
}

proof fn lemma_head_len(
    salt: Seq<u8>,
    username: Seq<u8>,
    password: Seq<u8>,
    config: LoginProfile,
)
    requires
        config.valid(),
    ensures
        login_head(salt, username, password, config).len() == 97,
{
    md5::lemma_md5_len(seq![0x03u8, 0x01u8] + salt + password);
    md5::lemma_md5_len(seq![0x01u8] + password + salt + bytes::zeros(4));
    law_mac_field_is_the_masked_mac(first_digest_of(salt, password), config.mac);
}

proof fn lemma_middle_len(head: Seq<u8>, config: LoginProfile)
    requires
        config.valid(),
    ensures
        login_middle(head, config).len() == 213,
{
    md5::lemma_md5_len(head + seq![0x14u8, 0x00u8, 0x07u8, 0x0bu8]);
}

/// The length of a login frame depends on the password and the MAC alone: one byte for each
/// password byte, one for each byte of the MAC dump, one for each four password bytes except at
/// sixteen, and 352 fixed bytes.
pub proof fn law_frame_length(
    salt: Seq<u8>,
    username: Seq<u8>,
    password: Seq<u8>,
    config: LoginProfile,
)
    requires
        config.valid(),
    ensures
        login_frame(salt, username, password, config).len() == 352 + password.len() + dump_bytes(
            config.mac,
        ).len() + (if 16 <= password.len() < 20 {
            0
        } else {
            password.len() as int / 4
        }),
{
    lemma_head_len(salt, username, password, config);
    lemma_middle_len(login_head(salt, username, password, config), config);
}

/// Where the fields of a login frame lie, whatever the credentials are.
pub proof fn law_field_offsets(
    salt: Seq<u8>,
    username: Seq<u8>,
    password: Seq<u8>,
    config: LoginProfile,
)
    requires
        config.valid(),
    ensures
        ({
            let frame = login_frame(salt, username, password, config);
            &&& frame.subrange(4, 20) == first_digest_of(salt, password)
            &&& frame.subrange(20, 56) == bytes::fitted(username, 36)
            &&& frame[56] == config.control_status
            &&& frame[57] == config.adapter_num
            &&& frame.subrange(58, 64) == crate::protocol::masked_mac(
                be_bytes(config.mac, 6),
                first_digest_of(salt, password),
            )
            &&& frame.subrange(64, 80) == second_digest_of(salt, password)
            &&& frame.subrange(81, 85) == config.host_ipv4
            &&& frame.subrange(110, 142) == bytes::fitted(config.hostname, 32)
            &&& frame.subrange(142, 146) == config.primary_dns
            &&& frame.subrange(162, 191) == OS_FINGERPRINT@
            &&& frame.subrange(246, 286) == CLIENT_KEY@
            &&& frame.subrange(310, 312) == config.auth_version
            &&& frame[313] == password.len() as u8
            &&& frame.subrange(314, 314 + password.len() as int) == rotated(
                first_digest_of(salt, password),
                password,
            )
        }),
{
    let first = first_digest_of(salt, password);
    let head = login_head(salt, username, password, config);
    let middle = login_middle(head, config);
    let secret = login_secret(salt, password, config);
    let body = login_body(salt, username, password, config);
    let frame = login_frame(salt, username, password, config);
    let mac = dump_bytes(config.mac);
    let rest = checksum_of(body + seq![0x01u8, 0x26u8, 0x07u8, 0x11u8, 0x00u8, 0x00u8] + mac)
        + seq![0x00u8, 0x00u8] + mac + bytes::zeros(password_padding(password.len()))
        + seq![0x60u8, 0xa2u8] + bytes::zeros(28);
    assert(frame =~= head + middle + secret + rest);
    lemma_mac_field_of_digest(salt, password, config.mac);
    lemma_head_len(salt, username, password, config);
    lemma_middle_len(head, config);
    lemma_head_fields(salt, username, password, config);
    lemma_middle_fields(head, config);
    lemma_secret_fields(salt, password, config);
    lemma_parts(head, middle, secret, rest, password.len());
}

proof fn lemma_mac_field_of_digest(salt: Seq<u8>, password: Seq<u8>, mac: u64)
    ensures
        first_digest_of(salt, password).len() == 16,
        mac_field(first_digest_of(salt, password), mac) == crate::protocol::masked_mac(
            be_bytes(mac, 6),
            first_digest_of(salt, password),
        ),
{
    md5::lemma_md5_len(seq![0x03u8, 0x01u8] + salt + password);
    law_mac_field_is_the_masked_mac(first_digest_of(salt, password), mac);
}

proof fn lemma_secret_fields(salt: Seq<u8>, password: Seq<u8>, config: LoginProfile)
    requires
        config.valid(),
    ensures
        ({
            let secret = login_secret(salt, password, config);
            &&& secret.len() == password.len() + 6
            &&& secret.subrange(0, 2) == config.auth_version
            &&& secret[3] == password.len() as u8
            &&& secret.subrange(4, 4 + password.len() as int) == rotated(
                first_digest_of(salt, password),
                password,
            )
        }),
{
    let secret = login_secret(salt, password, config);
    assert(secret.subrange(0, 2) =~= config.auth_version);
    assert(secret.subrange(4, 4 + password.len() as int) =~= rotated(
        first_digest_of(salt, password),
        password,
    ));
}

proof fn lemma_parts(head: Seq<u8>, middle: Seq<u8>, secret: Seq<u8>, rest: Seq<u8>, n: nat)
    requires
        head.len() == 97,
        middle.len() == 213,
        secret.len() == n + 6,
    ensures
        ({
            let frame = head + middle + secret + rest;
            &&& frame.subrange(4, 20) == head.subrange(4, 20)
            &&& frame.subrange(20, 56) == head.subrange(20, 56)
            &&& frame[56] == head[56]
            &&& frame[57] == head[57]
            &&& frame.subrange(58, 64) == head.subrange(58, 64)
            &&& frame.subrange(64, 80) == head.subrange(64, 80)
            &&& frame.subrange(81, 85) == head.subrange(81, 85)
            &&& frame.subrange(110, 142) == middle.subrange(13, 45)
            &&& frame.subrange(142, 146) == middle.subrange(45, 49)
            &&& frame.subrange(162, 191) == middle.subrange(65, 94)
            &&& frame.subrange(246, 286) == middle.subrange(149, 189)
            &&& frame.subrange(310, 312) == secret.subrange(0, 2)
            &&& frame[313] == secret[3]
            &&& frame.subrange(314, 314 + n as int) == secret.subrange(4, 4 + n as int)
        }),
{
    let frame = head + middle + secret + rest;
    assert(frame.subrange(0, 97) =~= head);
    assert(frame.subrange(97, 310) =~= middle);
    assert(frame.subrange(310, 316 + n as int) =~= secret);
    lemma_subrange(frame, 0, 97, 4, 20);
    lemma_subrange(frame, 0, 97, 20, 56);
    lemma_subrange(frame, 0, 97, 58, 64);
    lemma_subrange(frame, 0, 97, 64, 80);
    lemma_subrange(frame, 0, 97, 81, 85);
    lemma_subrange(frame, 97, 310, 110, 142);
    lemma_subrange(frame, 97, 310, 142, 146);
    lemma_subrange(frame, 97, 310, 162, 191);
    lemma_subrange(frame, 97, 310, 246, 286);
    lemma_subrange(frame, 310, 316 + n as int, 310, 312);
    lemma_subrange(frame, 310, 316 + n as int, 314, 314 + n as int);
}

proof fn lemma_subrange(whole: Seq<u8>, from: int, to: int, a: int, b: int)
    requires
        0 <= from <= a <= b <= to <= whole.len(),
    ensures
        whole.subrange(a, b) == whole.subrange(from, to).subrange(a - from, b - from),
{
    assert(whole.subrange(a, b) =~= whole.subrange(from, to).subrange(a - from, b - from));
}

proof fn lemma_head_fields(
    salt: Seq<u8>,
    username: Seq<u8>,
    password: Seq<u8>,
    config: LoginProfile,
)
    requires
        config.valid(),
    ensures
        ({
            let head = login_head(salt, username, password, config);
            let first = first_digest_of(salt, password);
            &&& head.subrange(4, 20) == first
            &&& head.subrange(20, 56) == bytes::fitted(username, 36)
            &&& head[56] == config.control_status
            &&& head[57] == config.adapter_num
            &&& head.subrange(58, 64) == mac_field(first, config.mac)
            &&& head.subrange(64, 80) == second_digest_of(salt, password)
            &&& head.subrange(81, 85) == config.host_ipv4
        }),
{
    let head = login_head(salt, username, password, config);
    let first = first_digest_of(salt, password);
    md5::lemma_md5_len(seq![0x03u8, 0x01u8] + salt + password);
    md5::lemma_md5_len(seq![0x01u8] + password + salt + bytes::zeros(4));
    law_mac_field_is_the_masked_mac(first, config.mac);
    assert(head.subrange(4, 20) =~= first);
    assert(head.subrange(20, 56) =~= bytes::fitted(username, 36));
    assert(head.subrange(58, 64) =~= mac_field(first, config.mac));
    assert(head.subrange(64, 80) =~= second_digest_of(salt, password));
    assert(head.subrange(81, 85) =~= config.host_ipv4);
}

proof fn lemma_middle_fields(head: Seq<u8>, config: LoginProfile)
    requires
        config.valid(),
    ensures
        ({
            let middle = login_middle(head, config);
            &&& middle.subrange(13, 45) == bytes::fitted(config.hostname, 32)
            &&& middle.subrange(45, 49) == config.primary_dns
            &&& middle.subrange(65, 94) == OS_FINGERPRINT@
            &&& middle.subrange(149, 189) == CLIENT_KEY@
        }),
{
    let middle = login_middle(head, config);
    md5::lemma_md5_len(head + seq![0x14u8, 0x00u8, 0x07u8, 0x0bu8]);
    assert(middle.subrange(13, 45) =~= bytes::fitted(config.hostname, 32));
    assert(middle.subrange(45, 49) =~= config.primary_dns);
    assert(middle.subrange(65, 94) =~= OS_FINGERPRINT@);
    assert(middle.subrange(149, 189) =~= CLIENT_KEY@);
}

/// The rotated field loses nothing: rotating back and masking again gives the password.
pub proof fn law_rotated_password_is_recoverable(first: Seq<u8>, password: Seq<u8>)
    requires
        first.len() == 16,
        password.len() <= MAX_PASSWORD_LEN,
    ensures
        rotated(first, password).len() == password.len(),
        forall|i: int|
            0 <= i < password.len() ==> #[trigger] password[i] == first[i] ^ ((rotated(
                first,
                password,
            )[i] >> 3) | (rotated(first, password)[i] << 5)),
{
    assert forall|i: int| 0 <= i < password.len() implies #[trigger] password[i] == first[i] ^ ((
    rotated(first, password)[i] >> 3) | (rotated(first, password)[i] << 5)) by {
        let f = first[i];
        let p = password[i];
        let r = rotated(first, password)[i];
        assert(r == ((f ^ p) << 3) | ((f ^ p) >> 5));
        assert(p == f ^ ((r >> 3) | (r << 5))) by (bit_vector)
            requires
                r == ((f ^ p) << 3) | ((f ^ p) >> 5),
        ;
    }
}

/// Without newline bytes the checksum walk is the plain fold over four-byte words.
pub proof fn law_walk_without_newlines_is_the_plain_fold(data: Seq<u8>)
    requires
        forall|i: int| 0 <= i < data.len() ==> data[i] != 0x0a,
    ensures
        checksum_walk(data, 0, 1234) == crate::protocol::xor_words(1234, data, data.len() / 4),
{
    lemma_walk(data, 0, 1234);
}

proof fn lemma_walk(data: Seq<u8>, n: nat, seed: u32)
    requires
        forall|i: int| 0 <= i < data.len() ==> data[i] != 0x0a,
        4 * n <= data.len(),
    ensures
        checksum_walk(data, 4 * n as int, crate::protocol::xor_words(seed, data, n))
            == crate::protocol::xor_words(seed, data, data.len() / 4),
    decreases data.len() - 4 * n,
{
    if 4 * n + 4 <= data.len() {
        lemma_walk(data, n + 1, seed);
        assert(4 * (n + 1) == 4 * n + 4);
    } else {
        assert(n == data.len() / 4);
    }
}

/// Every byte of the head of a login frame, offsets 0 to 97: `03 01 00` and the account's length
/// plus 20; the digest of `03 01`, salt and password; the account, zero-filled to 36 bytes; control
/// status and adapter number; the six low MAC bytes, each masked by the digest byte at its place;
/// the digest of `01`, password, salt and four zeros; `01`, the host address, twelve zeros.
pub proof fn law_the_head_of_the_frame(
    salt: Seq<u8>,
    username: Seq<u8>,
    password: Seq<u8>,
    config: LoginProfile,
)
    requires
        config.valid(),
        username.len() <= 36,
    ensures
        is_head(
            login_frame(salt, username, password, config),
            salt,
            username,
            password,
            config,
        ),
{
    let head = login_head(salt, username, password, config);
    lemma_head_len(salt, username, password, config);
    lemma_head_of_frame(salt, username, password, config);
    lemma_is_head(salt, username, password, config);
    lemma_same_head(
        login_frame(salt, username, password, config),
        head,
        salt,
        username,
        password,
        config,
    );
}

/// Whether bytes begin as a login frame does.
pub open spec fn is_head(
    frame: Seq<u8>,
    salt: Seq<u8>,
    username: Seq<u8>,
    password: Seq<u8>,
    config: LoginProfile,
) -> bool {
    let mac = config.mac;
    &&& frame[0] == 0x03 && frame[1] == 0x01 && frame[2] == 0x00
    &&& frame[3] == username.len() + 20
    &&& frame.subrange(4, 20) == md5::md5(seq![3u8, 1u8] + salt + password)
    &&& forall|i: int|
        0 <= i < 36 ==> #[trigger] frame[20 + i] == (if i < username.len() {
            username[i]
        } else {
            0
        })
    &&& frame[56] == config.control_status
    &&& frame[57] == config.adapter_num
    &&& frame[58] == frame[4] ^ ((mac / 0x100_0000_0000 % 256) as u8)
    &&& frame[59] == frame[5] ^ ((mac / 0x1_0000_0000 % 256) as u8)
    &&& frame[60] == frame[6] ^ ((mac / 0x100_0000 % 256) as u8)
    &&& frame[61] == frame[7] ^ ((mac / 0x1_0000 % 256) as u8)
    &&& frame[62] == frame[8] ^ ((mac / 0x100 % 256) as u8)
    &&& frame[63] == frame[9] ^ ((mac % 256) as u8)
    &&& frame.subrange(64, 80) == md5::md5(seq![1u8] + password + salt + seq![0u8, 0u8, 0u8, 0u8])
    &&& frame[80] == 1
    &&& frame.subrange(81, 85) == config.host_ipv4
    &&& forall|i: int| 85 <= i < 97 ==> frame[i] == 0
}

proof fn lemma_same_head(
    frame: Seq<u8>,
    head: Seq<u8>,
    salt: Seq<u8>,
    username: Seq<u8>,
    password: Seq<u8>,
    config: LoginProfile,
)
    requires
        head.len() == 97,
        frame.len() >= 97,
        forall|i: int| 0 <= i < 97 ==> #[trigger] frame[i] == head[i],
        is_head(head, salt, username, password, config),
    ensures
        is_head(frame, salt, username, password, config),
{
    assert(frame.subrange(4, 20) =~= head.subrange(4, 20));
    assert(frame.subrange(64, 80) =~= head.subrange(64, 80));
    assert(frame.subrange(81, 85) =~= head.subrange(81, 85));
    assert forall|i: int| 0 <= i < 36 implies #[trigger] frame[20 + i] == (if i < username.len() {
        username[i]
    } else {
        0
    }) by {
        assert(head[20 + i] == frame[20 + i]);
    }
}

proof fn lemma_is_head(
    salt: Seq<u8>,
    username: Seq<u8>,
    password: Seq<u8>,
    config: LoginProfile,
)
    requires
        config.valid(),
        username.len() <= 36,
    ensures
        is_head(
            login_head(salt, username, password, config),
            salt,
            username,
            password,
            config,
        ),
{
    let head = login_head(salt, username, password, config);
    let first = first_digest_of(salt, password);
    lemma_head_len(salt, username, password, config);
    lemma_head_fields(salt, username, password, config);
    lemma_head_ends(salt, username, password, config);
    assert(bytes::zeros(4) =~= seq![0u8, 0u8, 0u8, 0u8]);
    assert forall|i: int| 0 <= i < 36 implies #[trigger] head[20 + i] == (if i < username.len() {
        username[i]
    } else {
        0
    }) by {
        assert(head.subrange(20, 56)[i] == bytes::fitted(username, 36)[i]);
    }
    lemma_mac_field_of_digest(salt, password, config.mac);
    lemma_masked_bytes(head, first, config.mac);
}

proof fn lemma_masked_bytes(head: Seq<u8>, first: Seq<u8>, mac: u64)
    requires
        head.len() == 97,
        first.len() == 16,
        head.subrange(4, 20) == first,
        head.subrange(58, 64) == crate::protocol::masked_mac(be_bytes(mac, 6), first),
    ensures
        head[58] == head[4] ^ ((mac / 0x100_0000_0000 % 256) as u8),
        head[59] == head[5] ^ ((mac / 0x1_0000_0000 % 256) as u8),
        head[60] == head[6] ^ ((mac / 0x100_0000 % 256) as u8),
        head[61] == head[7] ^ ((mac / 0x1_0000 % 256) as u8),
        head[62] == head[8] ^ ((mac / 0x100 % 256) as u8),
        head[63] == head[9] ^ ((mac % 256) as u8),
{
    lemma_be_six(mac);
    lemma_xor_order(be_bytes(mac, 6), first);
    let masked = head.subrange(58, 64);
    let digest = head.subrange(4, 20);
    assert(masked[0] == head[58] && masked[1] == head[59] && masked[2] == head[60] && masked[3]
        == head[61] && masked[4] == head[62] && masked[5] == head[63]);
    assert(digest[0] == head[4] && digest[1] == head[5] && digest[2] == head[6] && digest[3]
        == head[7] && digest[4] == head[8] && digest[5] == head[9]);
}

proof fn lemma_xor_order(mac: Seq<u8>, first: Seq<u8>)
    requires
        mac.len() == 6,
        first.len() == 16,
    ensures
        forall|i: int|
            0 <= i < 6 ==> #[trigger] crate::protocol::masked_mac(mac, first)[i] == first[i]
                ^ mac[i],
{
    assert forall|i: int| 0 <= i < 6 implies #[trigger] crate::protocol::masked_mac(mac, first)[i]
        == first[i] ^ mac[i] by {
        let a = mac[i];
        let b = first[i];
        assert(a ^ b == b ^ a) by (bit_vector);
    }
}

proof fn lemma_head_of_frame(
    salt: Seq<u8>,
    username: Seq<u8>,
    password: Seq<u8>,
    config: LoginProfile,
)
    requires
        config.valid(),
    ensures
        login_frame(salt, username, password, config).take(97) == login_head(
            salt,
            username,
            password,
            config,
        ),
        forall|i: int|
            0 <= i < 97 ==> #[trigger] login_frame(salt, username, password, config)[i]
                == login_head(salt, username, password, config)[i],
        forall|i: int|
            97 <= i < 310 ==> #[trigger] login_frame(salt, username, password, config)[i]
                == login_middle(login_head(salt, username, password, config), config)[i - 97],
        login_frame(salt, username, password, config).len() >= 352 + password.len(),
        login_frame(salt, username, password, config).take(316 + password.len() as int)
            == login_body(salt, username, password, config),
{
    let frame = login_frame(salt, username, password, config);
    let head = login_head(salt, username, password, config);
    let middle = login_middle(head, config);
    let secret = login_secret(salt, password, config);
    let body = login_body(salt, username, password, config);
    lemma_head_len(salt, username, password, config);
    lemma_middle_len(head, config);
    lemma_secret_fields(salt, password, config);
    assert(body.len() == 316 + password.len());
    assert(frame.take(316 + password.len() as int) =~= body);
    assert(body.take(97) =~= head);
    assert(frame.take(97) =~= head);
    assert forall|i: int| 0 <= i < 97 implies #[trigger] frame[i] == head[i] by {
        assert(frame.take(97)[i] == head[i]);
    }
    assert(frame.subrange(97, 310) =~= middle);
    assert forall|i: int| 97 <= i < 310 implies #[trigger] frame[i] == middle[i - 97] by {
        assert(frame.subrange(97, 310)[i - 97] == middle[i - 97]);
    }
}

proof fn lemma_head_ends(
    salt: Seq<u8>,
    username: Seq<u8>,
    password: Seq<u8>,
    config: LoginProfile,
)
    requires
        config.valid(),
    ensures
        ({
            let head = login_head(salt, username, password, config);
            &&& head[0] == 0x03 && head[1] == 0x01 && head[2] == 0x00
            &&& head[3] == (username.len() + 20) as u8
            &&& head[80] == 1
            &&& forall|i: int| 85 <= i < 97 ==> head[i] == 0
        }),
{
    md5::lemma_md5_len(seq![0x03u8, 0x01u8] + salt + password);
    md5::lemma_md5_len(seq![0x01u8] + password + salt + bytes::zeros(4));
    law_mac_field_is_the_masked_mac(first_digest_of(salt, password), config.mac);
}

/// Every byte of the middle of a login frame, offsets 97 to 310: the first eight bytes of the digest
/// of everything before with `14 00 07 0b` behind it; the address flag, four zeros; the host name,
/// cut or zero-filled to 32 bytes; DNS and DHCP server, twelve zeros; the fingerprint, 55 zeros, the
/// client key, 24 zeros.
pub proof fn law_the_middle_of_the_frame(
    salt: Seq<u8>,
    username: Seq<u8>,
    password: Seq<u8>,
    config: LoginProfile,
)
    requires
        config.valid(),
    ensures
        ({
            let frame = login_frame(salt, username, password, config);
            let third = md5::md5(frame.take(97) + seq![0x14u8, 0u8, 0x07u8, 0x0bu8]);
            &&& forall|i: int| 0 <= i < 8 ==> frame[97 + i] == #[trigger] third[i]
            &&& frame[105] == config.ip_dog
            &&& forall|i: int| 106 <= i < 110 ==> frame[i] == 0
            &&& forall|i: int|
                0 <= i < 32 ==> #[trigger] frame[110 + i] == (if i < config.hostname.len() {
                    config.hostname[i]
                } else {
                    0
                })
            &&& frame.subrange(142, 146) == config.primary_dns
            &&& frame.subrange(146, 150) == config.dhcp_server
            &&& forall|i: int| 150 <= i < 162 ==> frame[i] == 0
            &&& frame.subrange(162, 191) == OS_FINGERPRINT@
            &&& forall|i: int| 191 <= i < 246 ==> frame[i] == 0
            &&& frame.subrange(246, 286) == CLIENT_KEY@
            &&& forall|i: int| 286 <= i < 310 ==> frame[i] == 0
        }),
{
    let frame = login_frame(salt, username, password, config);
    let head = login_head(salt, username, password, config);
    let middle = login_middle(head, config);
    lemma_head_of_frame(salt, username, password, config);
    law_field_offsets(salt, username, password, config);
    md5::lemma_md5_len(head + seq![0x14u8, 0x00u8, 0x07u8, 0x0bu8]);
    lemma_middle_bytes(head, config);
    assert forall|i: int| 0 <= i < 32 implies #[trigger] frame[110 + i] == (if i
        < config.hostname.len() {
        config.hostname[i]
    } else {
        0
    }) by {
        assert(frame.subrange(110, 142)[i] == bytes::fitted(config.hostname, 32)[i]);
    }
    assert(frame.subrange(146, 150) =~= config.dhcp_server);
}

proof fn lemma_middle_bytes(head: Seq<u8>, config: LoginProfile)
    requires
        config.valid(),
    ensures
        ({
            let middle = login_middle(head, config);
            let third = md5::md5(head + seq![0x14u8, 0u8, 0x07u8, 0x0bu8]);
            &&& forall|i: int| 0 <= i < 8 ==> #[trigger] middle[i] == third[i]
            &&& middle[8] == config.ip_dog
            &&& forall|i: int| 9 <= i < 13 ==> middle[i] == 0
            &&& forall|i: int| 0 <= i < 4 ==> middle[49 + i] == #[trigger] config.dhcp_server[i]
            &&& forall|i: int| 53 <= i < 65 ==> middle[i] == 0
            &&& forall|i: int| 94 <= i < 149 ==> middle[i] == 0
            &&& forall|i: int| 189 <= i < 213 ==> middle[i] == 0
        }),
{
    md5::lemma_md5_len(head + seq![0x14u8, 0x00u8, 0x07u8, 0x0bu8]);
}

/// Every byte of the rest of a login frame: the version, a zero, the password's length; the
/// password, each byte masked by the digest byte at its place and then rotated left by three bits;
/// `02 0c`; the checksum of everything before with `01 26 07 11 00 00` and the MAC behind it; two
/// zeros; the MAC in as few bytes as it takes; a zero for each four password bytes, but none at
/// sixteen; `60 a2`; 28 zeros.
pub proof fn law_the_rest_of_the_frame(
    salt: Seq<u8>,
    username: Seq<u8>,
    password: Seq<u8>,
    config: LoginProfile,
)
    requires
        config.valid(),
        password.len() <= 16,
    ensures
        is_rest(login_frame(salt, username, password, config), password, config),
{
    let body = login_body(salt, username, password, config);
    let tail = frame_tail(body, password.len(), dump_bytes(config.mac));
    let first = first_digest_of(salt, password);
    law_dump_is_the_shortest_spelling(config.mac);
    md5::lemma_md5_len(seq![0x03u8, 0x01u8] + salt + password);
    lemma_body_fields(salt, username, password, config);
    law_rotated_password_is_recoverable(first, password);
    lemma_frame_tail(salt, username, password, config);
    lemma_rest_of_tail(body, password.len(), dump_bytes(config.mac));
    lemma_is_rest(login_frame(salt, username, password, config), body, tail, first, password, config);
}

spec fn frame_tail(body: Seq<u8>, password_len: nat, mac: Seq<u8>) -> Seq<u8> {
    checksum_of(body + seq![0x01u8, 0x26u8, 0x07u8, 0x11u8, 0x00u8, 0x00u8] + mac) + seq![
        0x00u8,
        0x00u8,
    ] + mac + bytes::zeros(password_padding(password_len)) + seq![0x60u8, 0xa2u8] + bytes::zeros(28)
}

proof fn lemma_frame_tail(
    salt: Seq<u8>,
    username: Seq<u8>,
    password: Seq<u8>,
    config: LoginProfile,
)
    ensures
        login_frame(salt, username, password, config) == login_body(
            salt,
            username,
            password,
            config,
        ) + frame_tail(
            login_body(salt, username, password, config),
            password.len(),
            dump_bytes(config.mac),
        ),
{
    assert(login_frame(salt, username, password, config) =~= login_body(
        salt,
        username,
        password,
        config,
    ) + frame_tail(
        login_body(salt, username, password, config),
        password.len(),
        dump_bytes(config.mac),
    ));
}

proof fn lemma_rest_of_tail(body: Seq<u8>, password_len: nat, mac: Seq<u8>)
    requires
        password_len <= 16,
    ensures
        ({
            let tail = frame_tail(body, password_len, mac);
            let padding: int = if password_len == 16 {
                0
            } else {
                password_len as int / 4
            };
            let end: int = 6 + mac.len() as int + padding;
            &&& tail.len() == end + 30
            &&& tail.subrange(0, 4) == checksum_of(
                body + seq![0x01u8, 0x26u8, 0x07u8, 0x11u8, 0x00u8, 0x00u8] + mac,
            )
            &&& tail[4] == 0 && tail[5] == 0
            &&& tail.subrange(6, 6 + mac.len() as int) == mac
            &&& forall|i: int| 6 + mac.len() <= i < end ==> tail[i] == 0
            &&& tail[end] == 0x60 && tail[end + 1] == 0xa2
            &&& forall|i: int| end + 2 <= i < end + 30 ==> tail[i] == 0
        }),
{
    let sum = checksum_of(body + seq![0x01u8, 0x26u8, 0x07u8, 0x11u8, 0x00u8, 0x00u8] + mac);
    lemma_rest(
        frame_tail(body, password_len, mac),
        sum,
        mac,
        password_padding(password_len),
    );
}

proof fn lemma_body_fields(
    salt: Seq<u8>,
    username: Seq<u8>,
    password: Seq<u8>,
    config: LoginProfile,
)
    requires
        config.valid(),
    ensures
        ({
            let body = login_body(salt, username, password, config);
            let first = first_digest_of(salt, password);
            let n = password.len() as int;
            &&& body.len() == 316 + n
            &&& body.subrange(310, 312) == config.auth_version
            &&& body[312] == 0
            &&& body[313] == password.len() as u8
            &&& body.subrange(4, 20) == first
            &&& body.subrange(314, 314 + n) == rotated(first, password)
            &&& body[314 + n] == 0x02 && body[315 + n] == 0x0c
        }),
{
    let head = login_head(salt, username, password, config);
    let middle = login_middle(head, config);
    let secret = login_secret(salt, password, config);
    let body = login_body(salt, username, password, config);
    let n = password.len();
    lemma_head_len(salt, username, password, config);
    lemma_middle_len(head, config);
    lemma_head_fields(salt, username, password, config);
    lemma_secret_fields(salt, password, config);
    lemma_secret_in_body(salt, username, password, config);
    lemma_parts(head, middle, secret, Seq::empty(), n);
    assert(head + middle + secret + Seq::<u8>::empty() =~= body);
}

/// Whether bytes end as a login frame does.
pub open spec fn is_rest(frame: Seq<u8>, password: Seq<u8>, config: LoginProfile) -> bool {
    let n = password.len() as int;
    let mac = dump_bytes(config.mac);
    let padding: int = if n == 16 {
        0
    } else {
        n / 4
    };
    let end = 322 + n + mac.len() + padding;
    &&& frame.subrange(310, 312) == config.auth_version
    &&& frame[312] == 0
    &&& frame[313] == n
    &&& forall|i: int|
        0 <= i < n ==> #[trigger] password[i] == frame[4 + i] ^ ((frame[314 + i] >> 3) | (frame[314
            + i] << 5))
    &&& frame[314 + n] == 0x02 && frame[315 + n] == 0x0c
    &&& frame.subrange(316 + n, 320 + n) == checksum_of(
        frame.take(316 + n) + seq![0x01u8, 0x26u8, 0x07u8, 0x11u8, 0x00u8, 0x00u8] + mac,
    )
    &&& frame[320 + n] == 0 && frame[321 + n] == 0
    &&& frame.subrange(322 + n, 322 + n + mac.len()) == mac
    &&& be_value(mac) == config.mac
    &&& forall|i: int| 322 + n + mac.len() <= i < end ==> frame[i] == 0
    &&& frame[end] == 0x60 && frame[end + 1] == 0xa2
    &&& forall|i: int| end + 2 <= i < end + 30 ==> frame[i] == 0
    &&& frame.len() == end + 30
}

proof fn lemma_is_rest(
    frame: Seq<u8>,
    body: Seq<u8>,
    tail: Seq<u8>,
    first: Seq<u8>,
    password: Seq<u8>,
    config: LoginProfile,
)
    requires
        ({
            let n = password.len() as int;
            let mac = dump_bytes(config.mac);
            let padding: int = if n == 16 {
                0
            } else {
                n / 4
            };
            let end = 6 + mac.len() as int + padding;
            &&& n <= 16
            &&& frame == body + tail
            &&& body.len() == 316 + n
            &&& first.len() == 16
            &&& body.subrange(310, 312) == config.auth_version
            &&& body[312] == 0
            &&& body[313] == password.len() as u8
            &&& body.subrange(4, 20) == first
            &&& body.subrange(314, 314 + n) == rotated(first, password)
            &&& forall|i: int|
                0 <= i < n ==> #[trigger] password[i] == first[i] ^ ((rotated(first, password)[i]
                    >> 3) | (rotated(first, password)[i] << 5))
            &&& body[314 + n] == 0x02 && body[315 + n] == 0x0c
            &&& be_value(mac) == config.mac
            &&& tail.len() == end + 30
            &&& tail.subrange(0, 4) == checksum_of(
                body + seq![0x01u8, 0x26u8, 0x07u8, 0x11u8, 0x00u8, 0x00u8] + mac,
            )
            &&& tail[4] == 0 && tail[5] == 0
            &&& tail.subrange(6, 6 + mac.len() as int) == mac
            &&& forall|i: int| 6 + mac.len() <= i < end ==> tail[i] == 0
            &&& tail[end] == 0x60 && tail[end + 1] == 0xa2
            &&& forall|i: int| end + 2 <= i < end + 30 ==> tail[i] == 0
        }),
    ensures
        is_rest(frame, password, config),
{
    let n = password.len() as int;
    let mac = dump_bytes(config.mac);
    assert(frame.take(316 + n) =~= body);
    assert(frame.subrange(316 + n, 320 + n) =~= tail.subrange(0, 4));
    assert(frame.subrange(322 + n, 322 + n + mac.len()) =~= tail.subrange(6, 6 + mac.len() as int));
    assert(frame.subrange(310, 312) =~= body.subrange(310, 312));
    assert(frame.subrange(4, 20) =~= body.subrange(4, 20));
    assert(frame.subrange(314, 314 + n) =~= body.subrange(314, 314 + n));
    assert(frame[312] == body[312]);
    assert(frame[313] == body[313]);
    assert(frame[314 + n] == body[314 + n]);
    assert(frame[315 + n] == body[315 + n]);
    assert forall|i: int| 316 + n <= i < frame.len() implies #[trigger] frame[i] == tail[i - 316
        - n] by {
    }
    assert forall|i: int| 0 <= i < n implies #[trigger] password[i] == frame[4 + i] ^ ((frame[314
        + i] >> 3) | (frame[314 + i] << 5)) by {
        assert(frame.subrange(4, 20)[i] == first[i]);
        assert(frame.subrange(314, 314 + n)[i] == rotated(first, password)[i]);
    }
}

proof fn lemma_rest(rest: Seq<u8>, sum: Seq<u8>, mac: Seq<u8>, padding: nat)
    requires
        sum.len() == 4,
        rest == sum + seq![0x00u8, 0x00u8] + mac + bytes::zeros(padding) + seq![0x60u8, 0xa2u8]
            + bytes::zeros(28),
    ensures
        ({
            let end: int = 6 + mac.len() as int + padding as int;
            &&& rest.len() == end + 30
            &&& rest.subrange(0, 4) == sum
            &&& rest[4] == 0 && rest[5] == 0
            &&& rest.subrange(6, 6 + mac.len() as int) == mac
            &&& forall|i: int| 6 + mac.len() <= i < end ==> rest[i] == 0
            &&& rest[end] == 0x60 && rest[end + 1] == 0xa2
            &&& forall|i: int| end + 2 <= i < end + 30 ==> rest[i] == 0
        }),
{
    assert(rest.subrange(0, 4) =~= sum);
    assert(rest.subrange(6, 6 + mac.len() as int) =~= mac);
}

proof fn lemma_secret_in_body(
    salt: Seq<u8>,
    username: Seq<u8>,
    password: Seq<u8>,
    config: LoginProfile,
)
    requires
        config.valid(),
    ensures
        ({
            let body = login_body(salt, username, password, config);
            let n = password.len() as int;
            &&& body.len() == 316 + n
            &&& body[312] == 0
            &&& body[314 + n] == 0x02 && body[315 + n] == 0x0c
        }),
{
    let head = login_head(salt, username, password, config);
    let secret = login_secret(salt, password, config);
    lemma_head_len(salt, username, password, config);
    lemma_middle_len(head, config);
    let body = login_body(salt, username, password, config);
    let n = password.len() as int;
    assert(secret.len() == n + 6);
    assert(body[312] == secret[2]);
    assert(body[314 + n] == secret[4 + n]);
    assert(body[315 + n] == secret[5 + n]);
}

/// The checksum of bytes, from its two rules: four bytes without a newline are folded in as one
/// word, least significant byte first; a newline among the next four bytes has one byte passed over
/// and nothing folded in. Fewer than four bytes add nothing.
pub proof fn law_the_checksum_goes_by_words(data: Seq<u8>, value: u32)
    ensures
        data.len() < 4 ==> checksum_walk(data, 0, value) == value,
        data.len() >= 4 && (data[0] == 10 || data[1] == 10 || data[2] == 10 || data[3] == 10)
            ==> checksum_walk(data, 0, value) == checksum_walk(data.skip(1), 0, value),
        data.len() >= 4 && data[0] != 10 && data[1] != 10 && data[2] != 10 && data[3] != 10
            ==> checksum_walk(data, 0, value) == checksum_walk(
            data.skip(4),
            0,
            value ^ ((data[0] as int + 256 * (data[1] as int) + 65536 * (data[2] as int) + 16777216
                * (data[3] as int)) as u32),
        ),
        checksum_of(data).len() == 4,
        bytes::le_value(checksum_of(data)) == checksum_walk(data, 0, 1234) as nat * 1968
            % 0x1_0000_0000,
{
    if data.len() >= 4 {
        if breaks_window(data, 0) {
            lemma_walk_on(data, 1, 0, value);
        } else {
            lemma_walk_on(
                data,
                4,
                0,
                value ^ bytes::word32(data[0], data[1], data[2], data[3]),
            );
        }
    }
    let product = checksum_walk(data, 0, 1234).wrapping_mul(1968);
    bytes::lemma_le32_roundtrip(product);
}

proof fn lemma_walk_on(data: Seq<u8>, from: int, offset: int, value: u32)
    requires
        0 <= from <= data.len(),
        0 <= offset,
    ensures
        checksum_walk(data, from + offset, value) == checksum_walk(data.skip(from), offset, value),
    decreases data.len() - from - offset,
{
    let rest = data.skip(from);
    if from + offset + 4 <= data.len() {
        assert(rest[offset] == data[from + offset]);
        assert(rest[offset + 1] == data[from + offset + 1]);
        assert(rest[offset + 2] == data[from + offset + 2]);
        assert(rest[offset + 3] == data[from + offset + 3]);
        if breaks_window(rest, offset) {
            lemma_walk_on(data, from, offset + 1, value);
        } else {
            lemma_walk_on(
                data,
                from,
                offset + 4,
                value ^ bytes::word32(
                    rest[offset],
                    rest[offset + 1],
                    rest[offset + 2],
                    rest[offset + 3],
                ),
            );
        }
    }
}

} // verus!
