//! Keep-alive packets and the classification of their replies.
//!
//! Two families exist: the 42-byte primary packet, sent every cycle, and the 40-byte `0x07`
//! packet in three forms: the extra form that opens a run and returns every tenth round, and
//! the pair of a type 1 and a type 3 packet that every cycle sends.

use vstd::prelude::*;

use crate::bytes;

verus! {

/// The nonce that every 40-byte packet of the campus profile carries.
pub const REFERENCE_NONCE: [u8; 2] = [0x2f, 0x12];

#[derive(Debug, Clone, Copy, PartialEq, Eq, Structural)]
pub enum KeepAlivePacketType {
    /// The extra packet and the first packet of a pair; the reply is `0x02`.
    Type1,
    /// The second packet of a pair; the reply is `0x04`.
    Type3,
}

/// Whether the type 3 form carries a folded checksum or leaves the slot zero.
#[derive(Debug, Clone, Copy, PartialEq, Eq, Structural)]
pub enum KeepAliveChecksum {
    /// Four zero bytes.
    Zero,
    /// The fold of the first 24 bytes and the client address.
    Fold,
}

#[derive(Debug, Clone, Copy, PartialEq, Eq, Structural)]
pub enum KeepAliveResponse {
    /// `07 .. 10`: the server pushes a message instead of acknowledging the keep-alive.
    Message { counter: u8 },
    Continue { counter: u8 },
    Data { counter: u8 },
    Invalid,
}

/// The first 24 bytes of a 40-byte packet.
pub open spec fn packet_head(
    sequence: u8,
    tail: Seq<u8>,
    packet_type: KeepAlivePacketType,
    first: bool,
    nonce: Seq<u8>,
    negotiated_version: Seq<u8>,
) -> Seq<u8> {
    let kind: u8 = match packet_type {
        KeepAlivePacketType::Type1 => 1,
        KeepAlivePacketType::Type3 => 3,
    };
    let version = if first {
        seq![0x0fu8, 0x27u8]
    } else {
        negotiated_version
    };
    seq![0x07u8, sequence, 0x28u8, 0x00u8, 0x0bu8, kind] + version + nonce + bytes::zeros(6) + tail
        + bytes::zeros(4)
}

/// A 40-byte packet: the head, the checksum slot and the client address, which only the type 3
/// form fills, and eight zero bytes.
pub open spec fn packet_bytes(
    sequence: u8,
    tail: Seq<u8>,
    packet_type: KeepAlivePacketType,
    first: bool,
    nonce: Seq<u8>,
    negotiated_version: Seq<u8>,
    client_ipv4: Seq<u8>,
    checksum: KeepAliveChecksum,
) -> Seq<u8> {
    let head = packet_head(sequence, tail, packet_type, first, nonce, negotiated_version);
    let slots = match packet_type {
        KeepAlivePacketType::Type1 => bytes::zeros(8),
        KeepAlivePacketType::Type3 => match checksum {
            KeepAliveChecksum::Zero => bytes::zeros(4) + client_ipv4,
            KeepAliveChecksum::Fold => crc_bytes(head + client_ipv4) + client_ipv4,
        },
    };
    head + slots + bytes::zeros(8)
}

/// The exclusive or of the first `n` little-endian 16-bit words of `data`.
pub open spec fn xor_pairs(data: Seq<u8>, n: nat) -> u32
    decreases n,
{
    if n == 0 {
        0
    } else {
        xor_pairs(data, (n - 1) as nat) ^ (bytes::word16(data[2 * n - 2], data[2 * n - 1]) as u32)
    }
}

/// The fold of `data`: its 16-bit words combined, times 711, little-endian. An odd last byte
/// does not count.
pub open spec fn crc_bytes(data: Seq<u8>) -> Seq<u8> {
    bytes::le32(xor_pairs(data, data.len() / 2).wrapping_mul(711))
}

/// Whether `data` is a message that the server pushes.
pub open spec fn message_packet(data: Seq<u8>) -> bool {
    data.len() >= 3 && data[0] == 0x07 && data[2] == 0x10
}

/// The version pair that a reply carries, if it does.
pub open spec fn version_of(response: Seq<u8>) -> Option<Seq<u8>> {
    if response.len() >= 30 && response[0] == 0x07 {
        Some(response.subrange(28, 30))
    } else {
        None
    }
}

/// The primary keep-alive: `ff`, the login digest, three zero bytes, the session cookie, the
/// big-endian clock nonce, four zero bytes.
pub open spec fn primary_bytes(
    first_digest: Seq<u8>,
    session_cookie: Seq<u8>,
    unix_seconds: u64,
) -> Seq<u8> {
    seq![0xffu8] + first_digest + bytes::zeros(3) + session_cookie + bytes::be16(
        (unix_seconds % 0xffff) as u16,
    ) + bytes::zeros(4)
}

/// What a reply means. The opening handshake is content with four bytes, any other reply must
/// have twenty; a message comes before everything else.
pub open spec fn classified(
    data: Seq<u8>,
    expected_sequence: u8,
    handshake: bool,
) -> KeepAliveResponse {
    let shortest: nat = if handshake {
        4
    } else {
        20
    };
    if data.len() < shortest || data[0] != 0x07 {
        KeepAliveResponse::Invalid
    } else if message_packet(data) {
        KeepAliveResponse::Message { counter: data[1] }
    } else if data[2] == 0x28 && (data[1] == expected_sequence || data[1] == 0) {
        KeepAliveResponse::Continue { counter: data[1] }
    } else if !handshake {
        KeepAliveResponse::Data { counter: data[1] }
    } else {
        KeepAliveResponse::Invalid
    }
}

/// The tail after a reply: the reply's bytes 16 to 20 where it has them.
pub open spec fn tail_after(tail: Seq<u8>, response: Seq<u8>) -> Seq<u8> {
    if response.len() >= 20 {
        response.subrange(16, 20)
    } else {
        tail
    }
}

/// Builds the 40-byte packet of the campus profile: fixed nonce, zero checksum.
///
/// `first` selects the extra form, which opens a run and returns every tenth round. A resend
/// after a pushed message never uses it.
pub fn build_packet(
    sequence: u8,
    tail: [u8; 4],
    packet_type: KeepAlivePacketType,
    first: bool,
    local_ipv4: [u8; 4],
    negotiated_version: [u8; 2],
) -> (packet: [u8; 40])
    ensures
        packet@ == packet_bytes(
            sequence,
            tail@,
            packet_type,
            first,
            REFERENCE_NONCE@,
            negotiated_version@,
            local_ipv4@,
            KeepAliveChecksum::Zero,
        ),
{
    build_packet_negotiated(
        sequence,
        tail,
        packet_type,
        first,
        REFERENCE_NONCE,
        negotiated_version,
        local_ipv4,
        KeepAliveChecksum::Zero,
    )
}

/// Builds the 40-byte packet with every difference between profiles as a parameter.
pub fn build_packet_negotiated(
    sequence: u8,
    tail: [u8; 4],
    packet_type: KeepAlivePacketType,
    first: bool,
    nonce: [u8; 2],
    negotiated_version: [u8; 2],
    client_ipv4: [u8; 4],
    checksum: KeepAliveChecksum,
) -> (packet: [u8; 40])
    ensures
        packet@ == packet_bytes(
            sequence,
            tail@,
            packet_type,
            first,
            nonce@,
            negotiated_version@,
            client_ipv4@,
            checksum,
        ),
{
    let kind: u8 = match packet_type {
        KeepAlivePacketType::Type1 => 1,
        KeepAlivePacketType::Type3 => 3,
    };
    let mut packet: Vec<u8> = Vec::new();
    bytes::append(&mut packet, &[0x07, sequence, 0x28, 0x00, 0x0b, kind]);
    assert(packet@ =~= seq![0x07u8, sequence, 0x28u8, 0x00u8, 0x0bu8, kind]);
    if first {
        let marker = [0x0fu8, 0x27];
        assert(marker@ =~= seq![0x0fu8, 0x27u8]);
        bytes::append(&mut packet, &marker);
    } else {
        bytes::append(&mut packet, &negotiated_version);
    }
    bytes::append(&mut packet, &nonce);
    bytes::append_zeros(&mut packet, 6);
    bytes::append(&mut packet, &tail);
    bytes::append_zeros(&mut packet, 4);
    let ghost head = packet@;
    assert(head == packet_head(
        sequence,
        tail@,
        packet_type,
        first,
        nonce@,
        negotiated_version@,
    ));
    let mut slots: Vec<u8> = Vec::new();
    match packet_type {
        KeepAlivePacketType::Type1 => {
            bytes::append_zeros(&mut slots, 8);
            assert(slots@ =~= bytes::zeros(8));
        },
        KeepAlivePacketType::Type3 => {
            match checksum {
                KeepAliveChecksum::Zero => {
                    bytes::append_zeros(&mut slots, 4);
                    assert(slots@ =~= bytes::zeros(4));
                },
                KeepAliveChecksum::Fold => {
                    let mut input: Vec<u8> = Vec::new();
                    bytes::append(&mut input, &packet);
                    assert(input@ =~= head);
                    bytes::append(&mut input, &client_ipv4);
                    bytes::append(&mut slots, &crc(&input));
                    assert(slots@ =~= crc_bytes(head + client_ipv4@));
                },
            }
            bytes::append(&mut slots, &client_ipv4);
        },
    }
    bytes::append(&mut packet, &slots);
    bytes::append_zeros(&mut packet, 8);
    bytes::to_array::<40>(&packet)
}

/// Folds every two-byte window, multiplies by 711 and gives the low four bytes.
pub fn crc(data: &[u8]) -> (folded: [u8; 4])
    ensures
        folded@ == crc_bytes(data@),
{
    let total: usize = data.len();
    let pairs: usize = total / 2;
    let mut value: u32 = 0;
    let mut n: usize = 0;
    while n < pairs
        invariant
            total == data@.len(),
            pairs == total / 2,
            n <= pairs,
            value == xor_pairs(data@, n as nat),
        decreases pairs - n,
    {
        value = value ^ (bytes::word16_of(data[2 * n], data[2 * n + 1]) as u32);
        n += 1;
    }
    bytes::le32_bytes(value.wrapping_mul(711))
}

/// The version pair a reply carries at offset 28, where the server sends one.
pub fn negotiated_version(response: &[u8]) -> (version: Option<[u8; 2]>)
    ensures
        match version {
            Some(pair) => version_of(response@) == Some(pair@),
            None => version_of(response@) is None,
        },
{
    if response.len() >= 30 && response[0] == 0x07 {
        Some(bytes::array_at::<2>(response, 28))
    } else {
        None
    }
}

/// Whether the server pushes a message with this packet.
pub fn is_message_packet(bytes: &[u8]) -> (message: bool)
    ensures
        message == message_packet(bytes@),
{
    bytes.len() >= 3 && bytes[0] == 0x07 && bytes[2] == 0x10
}

/// The primary keep-alive. Its nonce is big-endian, unlike that of the challenge.
pub fn primary_keepalive(
    first_digest: [u8; 16],
    session_cookie: [u8; 16],
    unix_seconds: u64,
) -> (packet: [u8; 42])
    ensures
        packet@ == primary_bytes(first_digest@, session_cookie@, unix_seconds),
{
    let mut packet: Vec<u8> = Vec::new();
    packet.push(0xff);
    assert(packet@ =~= seq![0xffu8]);
    bytes::append(&mut packet, &first_digest);
    bytes::append_zeros(&mut packet, 3);
    bytes::append(&mut packet, &session_cookie);
    bytes::append(&mut packet, &bytes::be16_bytes((unix_seconds % 0xffff) as u16));
    bytes::append_zeros(&mut packet, 4);
    bytes::to_array::<42>(&packet)
}

/// What a reply to a 40-byte packet means.
pub fn classify_response(bytes: &[u8], expected_sequence: u8, handshake: bool) -> (response:
    KeepAliveResponse)
    ensures
        response == classified(bytes@, expected_sequence, handshake),
{
    let shortest: usize = if handshake {
        4
    } else {
        20
    };
    if bytes.len() < shortest || bytes[0] != 0x07 {
        return KeepAliveResponse::Invalid;
    }
    if is_message_packet(bytes) {
        return KeepAliveResponse::Message { counter: bytes[1] };
    }
    if bytes[2] == 0x28 && (bytes[1] == expected_sequence || bytes[1] == 0) {
        return KeepAliveResponse::Continue { counter: bytes[1] };
    }
    if !handshake {
        return KeepAliveResponse::Data { counter: bytes[1] };
    }
    KeepAliveResponse::Invalid
}

/// Takes the tail over from a reply that has one.
pub fn update_tail(destination: &mut [u8; 4], response: &[u8])
    ensures
        final(destination)@ == tail_after(old(destination)@, response@),
{
    if response.len() >= 20 {
        *destination = bytes::array_at::<4>(response, 16);
    }
}

/// A pushed message is never an acknowledgement: whatever was expected, it is a message or, when
/// too short, invalid.
pub proof fn law_messages_are_never_acknowledgements(
    data: Seq<u8>,
    expected_sequence: u8,
    handshake: bool,
)
    requires
        message_packet(data),
    ensures
        classified(data, expected_sequence, handshake) == (if data.len() >= (if handshake {
            4int
        } else {
            20
        }) {
            KeepAliveResponse::Message { counter: data[1] }
        } else {
            KeepAliveResponse::Invalid
        }),
{
}

/// The extra form differs from the ordinary one in the version pair alone, and carries the same
/// bytes whatever version was negotiated.
pub proof fn law_the_extra_marker_replaces_the_version(
    sequence: u8,
    tail: Seq<u8>,
    nonce: Seq<u8>,
    version: Seq<u8>,
    client_ipv4: Seq<u8>,
    checksum: KeepAliveChecksum,
)
    requires
        tail.len() == 4,
        nonce.len() == 2,
        version.len() == 2,
        client_ipv4.len() == 4,
    ensures
        packet_bytes(
            sequence,
            tail,
            KeepAlivePacketType::Type1,
            true,
            nonce,
            version,
            client_ipv4,
            checksum,
        ) == packet_bytes(
            sequence,
            tail,
            KeepAlivePacketType::Type1,
            false,
            nonce,
            seq![0x0fu8, 0x27u8],
            client_ipv4,
            checksum,
        ),
        packet_bytes(
            sequence,
            tail,
            KeepAlivePacketType::Type1,
            false,
            nonce,
            version,
            client_ipv4,
            checksum,
        ).subrange(6, 8) == version,
{
    let ordinary = packet_bytes(
        sequence,
        tail,
        KeepAlivePacketType::Type1,
        false,
        nonce,
        version,
        client_ipv4,
        checksum,
    );
    assert(ordinary.subrange(6, 8) =~= version);
}

/// Both checksum choices put the client address at offset 28 and differ in the checksum slot
/// alone.
pub proof fn law_folding_only_fills_the_checksum_slot(
    sequence: u8,
    tail: Seq<u8>,
    first: bool,
    nonce: Seq<u8>,
    version: Seq<u8>,
    client_ipv4: Seq<u8>,
)
    requires
        tail.len() == 4,
        nonce.len() == 2,
        version.len() == 2,
        client_ipv4.len() == 4,
    ensures
        ({
            let kind = KeepAlivePacketType::Type3;
            let zero = packet_bytes(
                sequence,
                tail,
                kind,
                first,
                nonce,
                version,
                client_ipv4,
                KeepAliveChecksum::Zero,
            );
            let fold = packet_bytes(
                sequence,
                tail,
                kind,
                first,
                nonce,
                version,
                client_ipv4,
                KeepAliveChecksum::Fold,
            );
            &&& zero.len() == 40
            &&& fold.len() == 40
            &&& zero.subrange(28, 32) == client_ipv4
            &&& fold.subrange(28, 32) == client_ipv4
            &&& zero.subrange(24, 28) == bytes::zeros(4)
            &&& fold.subrange(24, 28) == crc_bytes(zero.subrange(0, 24) + client_ipv4)
            &&& forall|i: int| 0 <= i < 40 && !(24 <= i < 28) ==> zero[i] == fold[i]
        }),
{
    let kind = KeepAlivePacketType::Type3;
    let head = packet_head(sequence, tail, kind, first, nonce, version);
    let zero = packet_bytes(
        sequence,
        tail,
        kind,
        first,
        nonce,
        version,
        client_ipv4,
        KeepAliveChecksum::Zero,
    );
    let fold = packet_bytes(
        sequence,
        tail,
        kind,
        first,
        nonce,
        version,
        client_ipv4,
        KeepAliveChecksum::Fold,
    );
    assert(head.len() == 24);
    assert(zero.subrange(0, 24) =~= head);
    assert(zero.subrange(28, 32) =~= client_ipv4);
    assert(fold.subrange(28, 32) =~= client_ipv4);
    assert(zero.subrange(24, 28) =~= bytes::zeros(4));
    assert(fold.subrange(24, 28) =~= crc_bytes(head + client_ipv4));
}

/// The primary keep-alive repeats the digest of the login frame that opened the session.
pub proof fn law_the_login_digest_is_repeated(
    salt: Seq<u8>,
    username: Seq<u8>,
    password: Seq<u8>,
    config: crate::reference_login::LoginProfile,
    session_cookie: Seq<u8>,
    unix_seconds: u64,
)
    requires
        session_cookie.len() == 16,
        config.valid(),
    ensures
        primary_bytes(
            crate::reference_login::first_digest_of(salt, password),
            session_cookie,
            unix_seconds,
        ).subrange(1, 17) == crate::reference_login::login_frame(
            salt,
            username,
            password,
            config,
        ).subrange(4, 20),
{
    let digest = crate::reference_login::first_digest_of(salt, password);
    crate::md5::lemma_md5_len(seq![0x03u8, 0x01u8] + salt + password);
    crate::reference_login::law_field_offsets(salt, username, password, config);
    assert(primary_bytes(digest, session_cookie, unix_seconds).subrange(1, 17) =~= digest);
}

/// The tail of the next packet is what stands at offsets 16 to 20 of the reply, however long the
/// reply is; a reply that ends before that leaves the tail as it was.
pub proof fn law_the_tail_stands_at_its_offset(tail: Seq<u8>, response: Seq<u8>)
    requires
        tail.len() == 4,
    ensures
        tail_after(tail, response).len() == 4,
        forall|i: int|
            0 <= i < 4 ==> #[trigger] tail_after(tail, response)[i] == (if response.len() >= 20 {
                response[16 + i]
            } else {
                tail[i]
            }),
{
}

/// What stands behind the tail of a reply never reaches it: two replies that agree on their first
/// twenty bytes leave the same tail.
pub proof fn law_nothing_behind_the_tail_counts(
    tail: Seq<u8>,
    response: Seq<u8>,
    other: Seq<u8>,
)
    requires
        response.len() >= 20,
        other.len() >= 20,
        forall|i: int| 0 <= i < 20 ==> #[trigger] response[i] == other[i],
    ensures
        tail_after(tail, response) == tail_after(tail, other),
{
    assert(response.subrange(16, 20) =~= other.subrange(16, 20));
}

/// Every byte of a 40-byte packet: `07`, the number, `28 00 0b`, the form, the version pair, the
/// nonce, six zeros, the tail, four zeros, the checksum slot, the client address, eight zeros. Only
/// the type 3 form names the client address.
pub proof fn law_the_layout_of_a_packet(
    sequence: u8,
    tail: Seq<u8>,
    packet_type: KeepAlivePacketType,
    first: bool,
    nonce: Seq<u8>,
    version: Seq<u8>,
    client_ipv4: Seq<u8>,
    checksum: KeepAliveChecksum,
)
    requires
        tail.len() == 4,
        nonce.len() == 2,
        version.len() == 2,
        client_ipv4.len() == 4,
    ensures
        ({
            let packet = packet_bytes(
                sequence,
                tail,
                packet_type,
                first,
                nonce,
                version,
                client_ipv4,
                checksum,
            );
            &&& packet.len() == 40
            &&& packet[0] == 0x07
            &&& packet[1] == sequence
            &&& packet[2] == 0x28
            &&& packet[3] == 0x00
            &&& packet[4] == 0x0b
            &&& packet_type is Type1 ==> packet[5] == 1
            &&& packet_type is Type3 ==> packet[5] == 3
            &&& first ==> packet[6] == 0x0f && packet[7] == 0x27
            &&& !first ==> packet[6] == version[0] && packet[7] == version[1]
            &&& packet[8] == nonce[0] && packet[9] == nonce[1]
            &&& forall|i: int| 10 <= i < 16 ==> packet[i] == 0
            &&& forall|i: int| 0 <= i < 4 ==> packet[16 + i] == #[trigger] tail[i]
            &&& forall|i: int| 20 <= i < 24 ==> packet[i] == 0
            &&& packet_type is Type1 || checksum is Zero ==> forall|i: int|
                24 <= i < 28 ==> packet[i] == 0
            &&& forall|i: int|
                0 <= i < 4 ==> packet[28 + i] == (if packet_type is Type3 {
                    #[trigger] client_ipv4[i]
                } else {
                    0
                })
            &&& forall|i: int| 32 <= i < 40 ==> packet[i] == 0
        }),
{
    let head = packet_head(sequence, tail, packet_type, first, nonce, version);
    let packet = packet_bytes(
        sequence,
        tail,
        packet_type,
        first,
        nonce,
        version,
        client_ipv4,
        checksum,
    );
    assert(head.len() == 24);
    assert(packet.take(24) =~= head);
    assert forall|i: int| 0 <= i < 24 implies packet[i] == head[i] by {
        assert(packet.take(24)[i] == head[i]);
    }
}

/// The fold of bytes is taken word by word: two more bytes change it by the word they spell, least
/// significant byte first, and one more byte behind whole words changes nothing. Of no bytes it is
/// zero.
pub proof fn law_the_fold_goes_by_words(data: Seq<u8>, low: u8, high: u8)
    requires
        data.len() % 2 == 0,
    ensures
        ({
            let sum = xor_pairs(data, data.len() / 2);
            let more = data + seq![low, high];
            &&& xor_pairs(more, more.len() / 2) == sum ^ ((low as int + 256 * (high as int)) as u32)
            &&& crc_bytes(data.push(low)) == crc_bytes(data)
            &&& crc_bytes(data).len() == 4
            &&& bytes::le_value(crc_bytes(data)) == sum as nat * 711 % 0x1_0000_0000
            &&& data.len() == 0 ==> crc_bytes(data) == seq![0u8, 0u8, 0u8, 0u8]
        }),
{
    let n = data.len() / 2;
    let sum = xor_pairs(data, n);
    let more = data + seq![low, high];
    assert(more.take(data.len() as int) =~= data);
    lemma_pairs_of_a_beginning(data, more, n);
    assert(more.len() / 2 == n + 1);
    assert(more[2 * (n + 1) - 2] == low);
    assert(more[2 * (n + 1) - 1] == high);
    let one = data.push(low);
    assert(one.len() / 2 == n);
    assert(one.take(data.len() as int) =~= data);
    lemma_pairs_of_a_beginning(data, one, n);
    let product = sum.wrapping_mul(711);
    bytes::lemma_le32_roundtrip(product);
    assert(product as nat == sum as nat * 711 % 0x1_0000_0000);
    if data.len() == 0 {
        assert(crc_bytes(data) =~= seq![0u8, 0u8, 0u8, 0u8]);
    }
}

proof fn lemma_pairs_of_a_beginning(data: Seq<u8>, more: Seq<u8>, n: nat)
    requires
        2 * n <= data.len() <= more.len(),
        more.take(data.len() as int) == data,
    ensures
        xor_pairs(more, n) == xor_pairs(data, n),
    decreases n,
{
    if n > 0 {
        lemma_pairs_of_a_beginning(data, more, (n - 1) as nat);
        assert(more.take(data.len() as int)[2 * n - 2] == data[2 * n - 2]);
        assert(more.take(data.len() as int)[2 * n - 1] == data[2 * n - 1]);
    }
}

/// Every byte of the primary keep-alive: `ff`, the digest, three zeros, the cookie, the seconds
/// modulo `ffff` with the high byte first, four zeros.
pub proof fn law_the_layout_of_the_primary_packet(
    first_digest: Seq<u8>,
    session_cookie: Seq<u8>,
    unix_seconds: u64,
)
    requires
        first_digest.len() == 16,
        session_cookie.len() == 16,
    ensures
        ({
            let packet = primary_bytes(first_digest, session_cookie, unix_seconds);
            &&& packet.len() == 42
            &&& packet[0] == 0xff
            &&& forall|i: int| 0 <= i < 16 ==> packet[1 + i] == #[trigger] first_digest[i]
            &&& packet[17] == 0 && packet[18] == 0 && packet[19] == 0
            &&& forall|i: int| 0 <= i < 16 ==> packet[20 + i] == #[trigger] session_cookie[i]
            &&& packet[36] as nat * 256 + packet[37] as nat == unix_seconds as nat % 65535
            &&& forall|i: int| 38 <= i < 42 ==> packet[i] == 0
        }),
{
}

/// What a reply means, from the reply alone: `07 .. 10` is a message, `07 n 28` with the number that
/// was sent or zero goes on, any other `07` carries data, and everything else, too short a reply
/// among it, means nothing. The handshake asks for four bytes and takes no data; any other packet
/// asks for twenty.
pub proof fn law_what_a_reply_means(data: Seq<u8>, sequence: u8, handshake: bool)
    ensures
        ({
            let meaning = classified(data, sequence, handshake);
            let shortest: int = if handshake {
                4
            } else {
                20
            };
            let taken = data.len() >= shortest && data[0] == 0x07;
            &&& meaning is Message <==> taken && data[2] == 0x10
            &&& meaning is Continue <==> taken && data[2] == 0x28 && (data[1] == sequence || data[1]
                == 0)
            &&& meaning is Data <==> taken && !handshake && data[2] != 0x10 && !(data[2] == 0x28 && (
            data[1] == sequence || data[1] == 0))
            &&& meaning matches KeepAliveResponse::Message { counter } ==> counter == data[1]
            &&& meaning matches KeepAliveResponse::Continue { counter } ==> counter == data[1]
            &&& meaning matches KeepAliveResponse::Data { counter } ==> counter == data[1]
        }),
{
}

/// A message is told by its first and third byte alone, and a version pair is what stands at
/// offsets 28 and 29 of a `07` reply that reaches that far.
pub proof fn law_what_a_reply_carries(data: Seq<u8>)
    ensures
        message_packet(data) <==> data.len() >= 3 && data[0] == 7 && data[2] == 16,
        version_of(data) is Some <==> data.len() >= 30 && data[0] == 7,
        version_of(data) matches Some(pair) ==> pair.len() == 2 && pair[0] == data[28] && pair[1]
            == data[29],
{
}

} // verus!
