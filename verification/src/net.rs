//! Internet addresses, their text, and UDP endpoints.

use vstd::prelude::*;

use crate::text;

verus! {

/// An IPv4 address, most significant octet first.
#[derive(Debug, Clone, Copy, PartialEq, Eq, Structural)]
pub struct Ipv4Addr {
    pub a: u8,
    pub b: u8,
    pub c: u8,
    pub d: u8,
}

/// An IPv6 address as eight segments, most significant first.
#[derive(Debug, Clone, Copy, PartialEq, Eq)]
pub struct Ipv6Addr {
    pub segments: [u16; 8],
}

#[derive(Debug, Clone, Copy, PartialEq, Eq)]
pub enum IpAddr {
    V4(Ipv4Addr),
    V6(Ipv6Addr),
}

/// A UDP endpoint.
#[derive(Debug, Clone, Copy, PartialEq, Eq, Structural)]
pub struct SocketAddrV4 {
    pub ip: Ipv4Addr,
    pub port: u16,
}

/// `0.0.0.0`
pub open spec fn unspecified() -> Ipv4Addr {
    Ipv4Addr { a: 0, b: 0, c: 0, d: 0 }
}

/// `255.255.255.255`
pub open spec fn broadcast_address() -> Ipv4Addr {
    Ipv4Addr { a: 255, b: 255, c: 255, d: 255 }
}

/// `127.0.0.1`
pub open spec fn localhost() -> Ipv4Addr {
    Ipv4Addr { a: 127, b: 0, c: 0, d: 1 }
}

impl Ipv4Addr {
    pub open spec fn bytes(self) -> Seq<u8> {
        seq![self.a, self.b, self.c, self.d]
    }

    /// The address as one number, first octet most significant.
    pub open spec fn number(self) -> u32 {
        (self.a as int * 16777216 + self.b as int * 65536 + self.c as int * 256
            + self.d as int) as u32
    }

    pub fn new(a: u8, b: u8, c: u8, d: u8) -> (address: Self)
        ensures
            address == (Ipv4Addr { a, b, c, d }),
    {
        Ipv4Addr { a, b, c, d }
    }

    pub fn unspecified() -> (address: Self)
        ensures
            address == unspecified(),
    {
        Ipv4Addr { a: 0, b: 0, c: 0, d: 0 }
    }

    pub fn broadcast() -> (address: Self)
        ensures
            address == broadcast_address(),
    {
        Ipv4Addr { a: 255, b: 255, c: 255, d: 255 }
    }

    pub fn localhost() -> (address: Self)
        ensures
            address == localhost(),
    {
        Ipv4Addr { a: 127, b: 0, c: 0, d: 1 }
    }

    pub fn from_octets(octets: [u8; 4]) -> (address: Self)
        ensures
            address.bytes() == octets@,
    {
        let address = Ipv4Addr { a: octets[0], b: octets[1], c: octets[2], d: octets[3] };
        assert(address.bytes() =~= octets@);
        address
    }

    pub fn octets(self) -> (octets: [u8; 4])
        ensures
            octets@ == self.bytes(),
    {
        [self.a, self.b, self.c, self.d]
    }

    pub fn to_number(self) -> (number: u32)
        ensures
            number == self.number(),
    {
        self.a as u32 * 16777216 + self.b as u32 * 65536 + self.c as u32 * 256 + self.d as u32
    }

    /// `127.0.0.0/8`
    pub open spec fn loopback(self) -> bool {
        self.a == 127
    }

    /// `169.254.0.0/16`
    pub open spec fn link_local(self) -> bool {
        self.a == 169 && self.b == 254
    }

    pub fn is_unspecified(self) -> (yes: bool)
        ensures
            yes == (self == unspecified()),
    {
        self == Ipv4Addr { a: 0, b: 0, c: 0, d: 0 }
    }

    pub fn is_broadcast(self) -> (yes: bool)
        ensures
            yes == (self == broadcast_address()),
    {
        self == Ipv4Addr { a: 255, b: 255, c: 255, d: 255 }
    }

    pub fn is_loopback(self) -> (yes: bool)
        ensures
            yes == self.loopback(),
    {
        self.a == 127
    }

    pub fn is_link_local(self) -> (yes: bool)
        ensures
            yes == self.link_local(),
    {
        self.a == 169 && self.b == 254
    }
}

proof fn lemma_octets(address: Ipv4Addr)
    ensures
        address.a == address.number() / 16777216,
        address.b == address.number() % 16777216 / 65536,
        address.c == address.number() % 65536 / 256,
        address.d == address.number() % 256,
{
    let low = address.c as int * 256 + address.d as int;
    let middle = address.b as int * 65536 + low;
    assert(0 <= low < 65536);
    assert(0 <= middle < 16777216);
    assert(address.number() == address.a as int * 16777216 + middle);
    assert(address.number() % 16777216 == middle);
    assert(address.number() % 65536 == low);
}

/// Two addresses with the same number are the same address.
pub proof fn law_number_identifies_the_address(one: Ipv4Addr, other: Ipv4Addr)
    requires
        one.number() == other.number(),
    ensures
        one == other,
{
    lemma_octets(one);
    lemma_octets(other);
}

/// The dotted notation of an IPv4 address.
pub open spec fn ipv4_text(address: Ipv4Addr) -> Seq<char> {
    text::decimal(address.a as nat) + seq!['.'] + text::decimal(address.b as nat) + seq!['.']
        + text::decimal(address.c as nat) + seq!['.'] + text::decimal(address.d as nat)
}

/// The IPv4 address whose dotted notation `text` is, if there is one.
pub open spec fn ipv4_of(text: Seq<char>) -> Option<Ipv4Addr> {
    if exists|address: Ipv4Addr| text == #[trigger] ipv4_text(address) {
        Some(choose|address: Ipv4Addr| text == #[trigger] ipv4_text(address))
    } else {
        None
    }
}

/// An endpoint: address, colon, port.
pub open spec fn endpoint_text(endpoint: SocketAddrV4) -> Seq<char> {
    ipv4_text(endpoint.ip) + seq![':'] + text::decimal(endpoint.port as nat)
}

/// How many zero segments in a row start at position `i`.
pub open spec fn zero_run(segments: Seq<u16>, i: int) -> nat
    decreases segments.len() - i,
{
    if 0 <= i < segments.len() && segments[i] == 0 {
        1 + zero_run(segments, i + 1)
    } else {
        0
    }
}

/// Of the first `n` positions, the first one at which the longest run of zero segments starts.
pub open spec fn longest_run(segments: Seq<u16>, n: nat) -> int
    decreases n,
{
    if n == 0 {
        0
    } else {
        let before = longest_run(segments, (n - 1) as nat);
        if zero_run(segments, n - 1) > zero_run(segments, before) {
            n - 1
        } else {
            before
        }
    }
}

/// Segments in hexadecimal notation with colons between them.
pub open spec fn segments_text(segments: Seq<u16>) -> Seq<char>
    decreases segments.len(),
{
    if segments.len() == 0 {
        Seq::empty()
    } else if segments.len() == 1 {
        text::hexadecimal(segments[0] as nat)
    } else {
        segments_text(segments.drop_last()) + seq![':'] + text::hexadecimal(
            segments.last() as nat,
        )
    }
}

/// Whether an IPv6 address stands for an IPv4 address: five zero segments, then `ffff`.
pub open spec fn mapped(segments: Seq<u16>) -> bool {
    &&& segments[0] == 0
    &&& segments[1] == 0
    &&& segments[2] == 0
    &&& segments[3] == 0
    &&& segments[4] == 0
    &&& segments[5] == 0xffff
}

/// The IPv4 address in the last two segments.
pub open spec fn mapped_ipv4(segments: Seq<u16>) -> Ipv4Addr {
    Ipv4Addr {
        a: (segments[6] / 256) as u8,
        b: (segments[6] % 256) as u8,
        c: (segments[7] / 256) as u8,
        d: (segments[7] % 256) as u8,
    }
}

/// The notation of an IPv6 address (RFC 5952): the first longest run of at least two zero
/// segments becomes `::`, and an address that stands for an IPv4 address ends in dotted notation.
pub open spec fn ipv6_text(address: Ipv6Addr) -> Seq<char> {
    let segments = address.segments@;
    let start = longest_run(segments, 8);
    let run = zero_run(segments, start);
    if mapped(segments) {
        seq![':', ':', 'f', 'f', 'f', 'f', ':'] + ipv4_text(mapped_ipv4(segments))
    } else if run > 1 {
        segments_text(segments.take(start)) + seq![':', ':'] + segments_text(
            segments.skip(start + run),
        )
    } else {
        segments_text(segments)
    }
}

/// The notation of an address.
pub open spec fn ip_text(address: IpAddr) -> Seq<char> {
    match address {
        IpAddr::V4(v4) => ipv4_text(v4),
        IpAddr::V6(v6) => ipv6_text(v6),
    }
}

/// The notations of addresses.
pub open spec fn ip_texts(addresses: Seq<IpAddr>) -> Seq<Seq<char>> {
    addresses.map_values(|address: IpAddr| ip_text(address))
}

/// The dotted notations of IPv4 addresses.
pub open spec fn ipv4_texts(addresses: Seq<Ipv4Addr>) -> Seq<Seq<char>> {
    addresses.map_values(|address: Ipv4Addr| ipv4_text(address))
}

/// The first IPv4 address of a list, in dotted notation; nothing where there is none.
pub open spec fn first_ipv4_text(addresses: Seq<IpAddr>) -> Seq<char>
    decreases addresses.len(),
{
    if addresses.len() == 0 {
        Seq::empty()
    } else if addresses[0] is V4 {
        ip_text(addresses[0])
    } else {
        first_ipv4_text(addresses.skip(1))
    }
}

proof fn lemma_digits_have_no_dot(n: nat)
    ensures
        forall|i: int|
            0 <= i < text::decimal(n).len() ==> !text::separates(
                text::Separator::One('.'),
                #[trigger] text::decimal(n)[i],
            ),
{
    text::law_decimal_spells_the_number(n);
    let notation = text::decimal(n);
    assert forall|i: int| 0 <= i < notation.len() implies !text::separates(
        text::Separator::One('.'),
        #[trigger] notation[i],
    ) by {
        assert(text::is_digit(notation[i]));
    }
}

proof fn lemma_split_front(front: Seq<char>, rest: Seq<char>)
    requires
        forall|i: int|
            0 <= i < front.len() ==> !text::separates(
                text::Separator::One('.'),
                #[trigger] front[i],
            ),
    ensures
        text::split(front + seq!['.'] + rest, text::Separator::One('.')) == seq![front]
            + text::split(rest, text::Separator::One('.')),
        text::split(front, text::Separator::One('.')) == seq![front],
{
    let dot = text::Separator::One('.');
    let whole = front + seq!['.'] + rest;
    assert forall|i: int| 0 <= i < front.len() implies !text::separates(dot, #[trigger] whole[i]) by {
        assert(whole[i] == front[i]);
    }
    text::lemma_first_separator(whole, dot, front.len() as int);
    text::lemma_first_separator(front, dot, front.len() as int);
    assert(whole.take(front.len() as int) =~= front);
    assert(whole.skip(front.len() as int + 1) =~= rest);
}

proof fn lemma_split_of_address(address: Ipv4Addr)
    ensures
        text::split(ipv4_text(address), text::Separator::One('.')) == seq![
            text::decimal(address.a as nat),
            text::decimal(address.b as nat),
            text::decimal(address.c as nat),
            text::decimal(address.d as nat),
        ],
{
    let dot = text::Separator::One('.');
    let a = text::decimal(address.a as nat);
    let b = text::decimal(address.b as nat);
    let c = text::decimal(address.c as nat);
    let d = text::decimal(address.d as nat);
    lemma_digits_have_no_dot(address.a as nat);
    lemma_digits_have_no_dot(address.b as nat);
    lemma_digits_have_no_dot(address.c as nat);
    lemma_digits_have_no_dot(address.d as nat);
    let tail3 = c + seq!['.'] + d;
    let tail2 = b + seq!['.'] + tail3;
    lemma_split_front(d, Seq::empty());
    lemma_split_front(c, d);
    lemma_split_front(b, tail3);
    lemma_split_front(a, tail2);
    assert(ipv4_text(address) =~= a + seq!['.'] + tail2);
    assert(text::split(ipv4_text(address), dot) =~= seq![a, b, c, d]);
}

proof fn lemma_split_step(whole: Seq<char>)
    requires
        text::split(whole, text::Separator::One('.')).len() > 1,
    ensures
        ({
            let dot = text::Separator::One('.');
            let at = text::first_separator(whole, dot);
            &&& 0 <= at < whole.len()
            &&& whole == text::split(whole, dot)[0] + seq!['.'] + whole.skip(at + 1)
            &&& text::split(whole, dot).skip(1) == text::split(whole.skip(at + 1), dot)
        }),
{
    let dot = text::Separator::One('.');
    let at = text::first_separator(whole, dot);
    text::lemma_first_separator_bounds(whole, dot);
    assert(whole =~= whole.take(at) + seq!['.'] + whole.skip(at + 1));
    assert(text::split(whole, dot).skip(1) =~= text::split(whole.skip(at + 1), dot));
}

proof fn lemma_split_one(whole: Seq<char>)
    requires
        text::split(whole, text::Separator::One('.')).len() == 1,
    ensures
        text::split(whole, text::Separator::One('.'))[0] == whole,
{
    let dot = text::Separator::One('.');
    let at = text::first_separator(whole, dot);
    if 0 <= at < whole.len() {
        let rest = whole.skip(at + 1);
        assert(text::split(rest, dot).len() >= 1);
    }
}

proof fn lemma_four_parts(whole: Seq<char>, parts: Seq<Seq<char>>)
    requires
        parts == text::split(whole, text::Separator::One('.')),
        parts.len() == 4,
    ensures
        whole == parts[0] + seq!['.'] + parts[1] + seq!['.'] + parts[2] + seq!['.'] + parts[3],
{
    let dot = text::Separator::One('.');
    lemma_split_step(whole);
    let rest1 = whole.skip(text::first_separator(whole, dot) + 1);
    assert(text::split(rest1, dot)[0] == parts[1]);
    lemma_split_step(rest1);
    let rest2 = rest1.skip(text::first_separator(rest1, dot) + 1);
    assert(text::split(rest2, dot) =~= parts.skip(2));
    lemma_split_step(rest2);
    let rest3 = rest2.skip(text::first_separator(rest2, dot) + 1);
    assert(text::split(rest3, dot) =~= parts.skip(3));
    lemma_split_one(rest3);
    assert(whole =~= parts[0] + seq!['.'] + parts[1] + seq!['.'] + parts[2] + seq!['.']
        + parts[3]);
}

/// Dotted notation identifies the address.
pub proof fn law_dotted_notation_is_unambiguous(one: Ipv4Addr, other: Ipv4Addr)
    requires
        ipv4_text(one) == ipv4_text(other),
    ensures
        one == other,
{
    lemma_split_of_address(one);
    lemma_split_of_address(other);
    let parts = text::split(ipv4_text(one), text::Separator::One('.'));
    assert(parts[0] == text::decimal(one.a as nat) && parts[0] == text::decimal(other.a as nat));
    assert(parts[1] == text::decimal(one.b as nat) && parts[1] == text::decimal(other.b as nat));
    assert(parts[2] == text::decimal(one.c as nat) && parts[2] == text::decimal(other.c as nat));
    assert(parts[3] == text::decimal(one.d as nat) && parts[3] == text::decimal(other.d as nat));
    text::law_decimal_spells_the_number(one.a as nat);
    text::law_decimal_spells_the_number(one.b as nat);
    text::law_decimal_spells_the_number(one.c as nat);
    text::law_decimal_spells_the_number(one.d as nat);
    text::law_decimal_spells_the_number(other.a as nat);
    text::law_decimal_spells_the_number(other.b as nat);
    text::law_decimal_spells_the_number(other.c as nat);
    text::law_decimal_spells_the_number(other.d as nat);
}

/// An address that is written down and read again is the same address.
pub proof fn law_dotted_notation_is_read_back(address: Ipv4Addr)
    ensures
        ipv4_of(ipv4_text(address)) == Some(address),
{
    let read = choose|other: Ipv4Addr| ipv4_text(address) == #[trigger] ipv4_text(other);
    law_dotted_notation_is_unambiguous(read, address);
}

/// The dotted notation of an IPv4 address.
pub fn ipv4_string(address: Ipv4Addr) -> (notation: String)
    ensures
        notation@ == ipv4_text(address),
{
    let mut notation = text::decimal_text(address.a as u64);
    notation.push('.');
    assert(notation@ =~= text::decimal(address.a as nat) + seq!['.']);
    notation.append(&text::decimal_text(address.b as u64));
    notation.push('.');
    assert(notation@ =~= text::decimal(address.a as nat) + seq!['.'] + text::decimal(
        address.b as nat,
    ) + seq!['.']);
    notation.append(&text::decimal_text(address.c as u64));
    notation.push('.');
    assert(notation@ =~= text::decimal(address.a as nat) + seq!['.'] + text::decimal(
        address.b as nat,
    ) + seq!['.'] + text::decimal(address.c as nat) + seq!['.']);
    notation.append(&text::decimal_text(address.d as u64));
    notation
}

proof fn lemma_octet_notation(n: u8)
    ensures
        1 <= text::decimal(n as nat).len() <= 3,
{
    reveal_with_fuel(text::decimal, 4);
}

/// The octet whose decimal notation `part` is.
fn parse_octet(part: &[char]) -> (octet: Option<u8>)
    ensures
        match octet {
            Some(n) => part@ == text::decimal(n as nat),
            None => forall|n: u8| part@ != #[trigger] text::decimal(n as nat),
        },
{
    let len: usize = part.len();
    proof {
        assert forall|n: u8| part@ == #[trigger] text::decimal(n as nat) implies {
            &&& 1 <= part@.len() <= 3
            &&& text::all_digits(part@)
            &&& text::digits_value(part@) == n
            &&& part@.len() > 1 ==> part@[0] != '0'
        } by {
            lemma_octet_notation(n);
            text::law_decimal_spells_the_number(n as nat);
        }
    }
    if len == 0 || len > 3 || (len > 1 && part[0] == '0') {
        return None;
    }
    let mut value: u32 = 0;
    let mut i: usize = 0;
    assert(part@.take(0) =~= Seq::empty());
    while i < len
        invariant
            len == part@.len(),
            len <= 3,
            i <= len,
            text::all_digits(part@.take(i as int)),
            value == text::digits_value(part@.take(i as int)),
            i == 0 ==> value == 0,
            i == 1 ==> value <= 9,
            i == 2 ==> value <= 99,
            i == 3 ==> value <= 999,
            forall|n: u8| part@ == #[trigger] text::decimal(n as nat) ==> text::all_digits(part@),
        decreases len - i,
    {
        let c = part[i];
        if !('0' <= c && c <= '9') {
            assert(!text::is_digit(part@[i as int]));
            return None;
        }
        proof {
            let next = part@.take(i + 1);
            assert(next.drop_last() =~= part@.take(i as int));
            assert(next.last() == c);
            assert forall|j: int| 0 <= j < next.len() implies text::is_digit(#[trigger] next[j]) by {
                if j < i {
                    assert(next[j] == part@.take(i as int)[j]);
                }
            }
        }
        value = value * 10 + (c as u8 - 48) as u32;
        i += 1;
    }
    assert(part@.take(len as int) =~= part@);
    if value > 255 {
        return None;
    }
    proof {
        text::law_digits_are_decimal_notation(part@);
    }
    Some(value as u8)
}

/// The IPv4 address whose dotted notation `notation` is: four decimal numbers up to 255 without
/// leading zeros.
pub fn parse_ipv4(notation: &[char]) -> (address: Option<Ipv4Addr>)
    ensures
        address == ipv4_of(notation@),
        address matches Some(found) ==> notation@ == ipv4_text(found),
{
    let parts = text::split_text(notation, text::Separator::One('.'));
    let ghost views = text::char_views(parts@);
    proof {
        assert forall|other: Ipv4Addr| notation@ == #[trigger] ipv4_text(other) implies views
            == seq![
            text::decimal(other.a as nat),
            text::decimal(other.b as nat),
            text::decimal(other.c as nat),
            text::decimal(other.d as nat),
        ] by {
            lemma_split_of_address(other);
        }
    }
    assert(views.len() == parts@.len());
    if parts.len() != 4 {
        proof {
            assert forall|other: Ipv4Addr| notation@ != #[trigger] ipv4_text(other) by {
                if notation@ == ipv4_text(other) {
                    assert(views.len() == 4);
                }
            }
        }
        return None;
    }
    assert(views[0] == parts@[0]@ && views[1] == parts@[1]@ && views[2] == parts@[2]@ && views[3]
        == parts@[3]@);
    let a = parse_octet(&parts[0]);
    let b = parse_octet(&parts[1]);
    let c = parse_octet(&parts[2]);
    let d = parse_octet(&parts[3]);
    match (a, b, c, d) {
        (Some(a), Some(b), Some(c), Some(d)) => {
            let address = Ipv4Addr { a, b, c, d };
            proof {
                lemma_four_parts(notation@, views);
                assert(notation@ =~= ipv4_text(address));
                law_dotted_notation_is_read_back(address);
            }
            Some(address)
        },
        _ => {
            proof {
                assert forall|other: Ipv4Addr| notation@ != #[trigger] ipv4_text(other) by {
                    if notation@ == ipv4_text(other) {
                        assert(views[0] == text::decimal(other.a as nat));
                        assert(views[1] == text::decimal(other.b as nat));
                        assert(views[2] == text::decimal(other.c as nat));
                        assert(views[3] == text::decimal(other.d as nat));
                    }
                }
            }
            None
        },
    }
}

/// An endpoint: address, colon, port.
pub fn endpoint_string(endpoint: SocketAddrV4) -> (notation: String)
    ensures
        notation@ == endpoint_text(endpoint),
{
    let mut notation = ipv4_string(endpoint.ip);
    notation.push(':');
    assert(notation@ =~= ipv4_text(endpoint.ip) + seq![':']);
    notation.append(&text::decimal_text(endpoint.port as u64));
    notation
}

fn run_at(segments: &[u16; 8], i: usize) -> (run: usize)
    requires
        i <= 8,
    ensures
        run == zero_run(segments@, i as int),
        i + run <= 8,
    decreases 8 - i,
{
    if i < 8 && segments[i] == 0 {
        1 + run_at(segments, i + 1)
    } else {
        0
    }
}

fn segments_string(segments: &[u16]) -> (notation: String)
    ensures
        notation@ == segments_text(segments@),
{
    let mut notation = String::new();
    let mut i: usize = 0;
    assert(notation@ =~= segments_text(segments@.take(0)));
    while i < segments.len()
        invariant
            i <= segments@.len(),
            notation@ == segments_text(segments@.take(i as int)),
        decreases segments@.len() - i,
    {
        let ghost before = notation@;
        if i > 0 {
            notation.push(':');
            assert(notation@ =~= before + seq![':']);
        }
        notation.append(&text::hexadecimal_text(segments[i] as u64));
        proof {
            let next = segments@.take(i + 1);
            assert(next.drop_last() =~= segments@.take(i as int));
            assert(next.last() == segments@[i as int]);
            assert(notation@ =~= segments_text(next));
        }
        i += 1;
    }
    assert(segments@.take(segments@.len() as int) =~= segments@);
    notation
}

/// The notation of an IPv6 address.
pub fn ipv6_string(address: Ipv6Addr) -> (notation: String)
    ensures
        notation@ == ipv6_text(address),
{
    let s = address.segments;
    if s[0] == 0 && s[1] == 0 && s[2] == 0 && s[3] == 0 && s[4] == 0 && s[5] == 0xffff {
        let inner = Ipv4Addr {
            a: (s[6] / 256) as u8,
            b: (s[6] % 256) as u8,
            c: (s[7] / 256) as u8,
            d: (s[7] % 256) as u8,
        };
        let mut notation = String::new();
        notation.push(':');
        notation.push(':');
        notation.push('f');
        notation.push('f');
        notation.push('f');
        notation.push('f');
        notation.push(':');
        assert(notation@ =~= seq![':', ':', 'f', 'f', 'f', 'f', ':']);
        notation.append(&ipv4_string(inner));
        return notation;
    }
    let mut start: usize = 0;
    let mut run: usize = run_at(&s, 0);
    let mut i: usize = 0;
    while i < 8
        invariant
            i <= 8,
            start < 8,
            start == longest_run(s@, i as nat),
            run == zero_run(s@, start as int),
            start + run <= 8,
        decreases 8 - i,
    {
        let here: usize = run_at(&s, i);
        if here > run {
            start = i;
            run = here;
        }
        i += 1;
    }
    if run > 1 {
        assert(s@.subrange(0, start as int) =~= s@.take(start as int));
        assert(s@.subrange(start + run, 8) =~= s@.skip(start + run));
        let mut notation = segments_string(vstd::slice::slice_subrange(&s, 0, start));
        let ghost front = notation@;
        notation.push(':');
        notation.push(':');
        assert(notation@ =~= front + seq![':', ':']);
        notation.append(&segments_string(vstd::slice::slice_subrange(&s, start + run, 8)));
        notation
    } else {
        segments_string(&s)
    }
}

/// The notation of an address.
pub fn ip_string(address: IpAddr) -> (notation: String)
    ensures
        notation@ == ip_text(address),
{
    match address {
        IpAddr::V4(v4) => ipv4_string(v4),
        IpAddr::V6(v6) => ipv6_string(v6),
    }
}

/// The notations of addresses.
pub fn ip_strings(addresses: &[IpAddr]) -> (notations: Vec<String>)
    ensures
        text::string_views(notations@) == ip_texts(addresses@),
{
    let mut notations: Vec<String> = Vec::new();
    let mut i: usize = 0;
    while i < addresses.len()
        invariant
            i <= addresses@.len(),
            notations@.len() == i,
            forall|j: int| 0 <= j < i ==> (#[trigger] notations@[j])@ == ip_text(addresses@[j]),
        decreases addresses@.len() - i,
    {
        notations.push(ip_string(addresses[i]));
        i += 1;
    }
    assert(text::string_views(notations@) =~= ip_texts(addresses@));
    notations
}

/// The dotted notations of IPv4 addresses.
pub fn ipv4_strings(addresses: &[Ipv4Addr]) -> (notations: Vec<String>)
    ensures
        text::string_views(notations@) == ipv4_texts(addresses@),
{
    let mut notations: Vec<String> = Vec::new();
    let mut i: usize = 0;
    while i < addresses.len()
        invariant
            i <= addresses@.len(),
            notations@.len() == i,
            forall|j: int| 0 <= j < i ==> (#[trigger] notations@[j])@ == ipv4_text(addresses@[j]),
        decreases addresses@.len() - i,
    {
        notations.push(ipv4_string(addresses[i]));
        i += 1;
    }
    assert(text::string_views(notations@) =~= ipv4_texts(addresses@));
    notations
}

/// The first IPv4 address of a list, in dotted notation; nothing where there is none.
pub fn first_ipv4_string(addresses: &[IpAddr]) -> (notation: String)
    ensures
        notation@ == first_ipv4_text(addresses@),
{
    let mut i: usize = 0;
    assert(addresses@.skip(0) =~= addresses@);
    while i < addresses.len()
        invariant
            i <= addresses@.len(),
            first_ipv4_text(addresses@) == first_ipv4_text(addresses@.skip(i as int)),
        decreases addresses@.len() - i,
    {
        assert(addresses@.skip(i as int)[0] == addresses@[i as int]);
        assert(addresses@.skip(i as int).skip(1) =~= addresses@.skip(i + 1));
        if let IpAddr::V4(v4) = addresses[i] {
            return ipv4_string(v4);
        }
        i += 1;
    }
    let notation = String::new();
    assert(notation@ =~= first_ipv4_text(addresses@.skip(i as int)));
    notation
}

/// The number of an address counts its octets from the first down, and its bytes stand in the
/// same order.
pub proof fn law_the_first_octet_counts_most(address: Ipv4Addr)
    ensures
        address.number() / 0x100_0000 == address.a,
        address.number() / 0x1_0000 % 256 == address.b,
        address.number() / 0x100 % 256 == address.c,
        address.number() % 256 == address.d,
        address.bytes().len() == 4,
        address.bytes()[0] == address.a,
        address.bytes()[1] == address.b,
        address.bytes()[2] == address.c,
        address.bytes()[3] == address.d,
{
    lemma_octets(address);
}

/// The loopback network is every address whose first octet is 127, and the link-local network
/// every one whose first two are 169 and 254.
pub proof fn law_the_special_networks(address: Ipv4Addr)
    ensures
        address.loopback() <==> 0x7f00_0000 <= address.number() < 0x8000_0000,
        address.link_local() <==> 0xa9fe_0000 <= address.number() < 0xa9ff_0000,
        address == unspecified() <==> address.number() == 0,
        address == broadcast_address() <==> address.number() == 0xffff_ffff,
        address == localhost() <==> address.number() == 0x7f00_0001,
{
    lemma_octets(address);
    if address.number() == 0 {
        law_number_identifies_the_address(address, unspecified());
    }
    if address.number() == 0xffff_ffff {
        law_number_identifies_the_address(address, broadcast_address());
    }
    if address.number() == 0x7f00_0001 {
        law_number_identifies_the_address(address, localhost());
    }
}

/// Between the dots of a dotted notation stand the octets in decimal, the first one first.
pub proof fn law_the_parts_of_dotted_notation(address: Ipv4Addr)
    ensures
        text::split(ipv4_text(address), text::Separator::One('.')).len() == 4,
        text::split(ipv4_text(address), text::Separator::One('.'))[0] == text::decimal(
            address.a as nat,
        ),
        text::split(ipv4_text(address), text::Separator::One('.'))[1] == text::decimal(
            address.b as nat,
        ),
        text::split(ipv4_text(address), text::Separator::One('.'))[2] == text::decimal(
            address.c as nat,
        ),
        text::split(ipv4_text(address), text::Separator::One('.'))[3] == text::decimal(
            address.d as nat,
        ),
{
    lemma_split_of_address(address);
}

/// An endpoint is the dotted notation of its address, a colon, and its port in decimal.
pub proof fn law_the_parts_of_an_endpoint(endpoint: SocketAddrV4)
    ensures
        endpoint_text(endpoint).take(ipv4_text(endpoint.ip).len() as int) == ipv4_text(endpoint.ip),
        endpoint_text(endpoint)[ipv4_text(endpoint.ip).len() as int] == ':',
        endpoint_text(endpoint).skip(ipv4_text(endpoint.ip).len() as int + 1) == text::decimal(
            endpoint.port as nat,
        ),
{
    assert(endpoint_text(endpoint).take(ipv4_text(endpoint.ip).len() as int) =~= ipv4_text(
        endpoint.ip,
    ));
    assert(endpoint_text(endpoint).skip(ipv4_text(endpoint.ip).len() as int + 1) =~= text::decimal(
        endpoint.port as nat,
    ));
}

/// A run of zero segments reaches as far as there are zeros, and no farther.
pub proof fn law_a_run_reaches_to_the_last_zero(segments: Seq<u16>, i: int)
    requires
        0 <= i <= segments.len(),
    ensures
        i + zero_run(segments, i) <= segments.len(),
        forall|j: int| i <= j < i + zero_run(segments, i) ==> #[trigger] segments[j] == 0,
        i + zero_run(segments, i) < segments.len() ==> segments[i + zero_run(segments, i)] != 0,
    decreases segments.len() - i,
{
    if i < segments.len() && segments[i] == 0 {
        law_a_run_reaches_to_the_last_zero(segments, i + 1);
    }
}

/// Of all runs of zero segments the one chosen is the longest, and of equally long ones the first.
pub proof fn law_the_first_longest_run_is_chosen(segments: Seq<u16>, n: nat)
    requires
        n > 0,
    ensures
        0 <= longest_run(segments, n) < n,
        forall|i: int|
            0 <= i < n ==> #[trigger] zero_run(segments, i) <= zero_run(
                segments,
                longest_run(segments, n),
            ),
        forall|i: int|
            0 <= i < longest_run(segments, n) ==> #[trigger] zero_run(segments, i) < zero_run(
                segments,
                longest_run(segments, n),
            ),
    decreases n,
{
    if n > 1 {
        law_the_first_longest_run_is_chosen(segments, (n - 1) as nat);
    } else {
        assert(longest_run(segments, 0) == 0);
    }
}

/// Each segment is written in hexadecimal without leading zeros, with one colon between two.
pub proof fn law_segments_are_joined_in_order(front: Seq<u16>, back: Seq<u16>, one: u16)
    requires
        front.len() > 0,
        back.len() > 0,
    ensures
        segments_text(front + back) == segments_text(front) + seq![':'] + segments_text(back),
        segments_text(seq![one]) == text::hexadecimal(one as nat),
        segments_text(Seq::empty()).len() == 0,
    decreases back.len(),
{
    assert((front + back).drop_last() =~= front + back.drop_last());
    assert((front + back).last() == back.last());
    if back.len() == 1 {
        assert(front + back.drop_last() =~= front);
        assert(segments_text(front + back) =~= segments_text(front) + seq![':'] + segments_text(
            back,
        ));
    } else {
        law_segments_are_joined_in_order(front, back.drop_last(), one);
        assert(segments_text(front + back) =~= segments_text(front) + seq![':'] + segments_text(
            back,
        ));
    }
}

/// Where no two zero segments stand side by side, an IPv6 address is written out in full; where
/// some do, two colons stand for a run of zeros that cannot be made longer and that no other run
/// exceeds, the first of such.
pub proof fn law_the_notation_of_ipv6(address: Ipv6Addr)
    requires
        !(address.segments@[0] == 0 && address.segments@[1] == 0 && address.segments@[2] == 0
            && address.segments@[3] == 0 && address.segments@[4] == 0 && address.segments@[5]
            == 0xffff),
    ensures
        (forall|i: int| 0 <= i < 7 ==> !(#[trigger] address.segments@[i] == 0 && address.segments@[i
            + 1] == 0)) ==> ipv6_text(address) == segments_text(address.segments@),
        (exists|i: int| 0 <= i < 7 && #[trigger] address.segments@[i] == 0 && address.segments@[i
            + 1] == 0) ==> exists|start: int, end: int|
            {
                &&& 0 <= start && start + 2 <= end <= 8
                &&& forall|j: int| start <= j < end ==> #[trigger] address.segments@[j] == 0
                &&& start > 0 ==> address.segments@[start - 1] != 0
                &&& end < 8 ==> address.segments@[end] != 0
                &&& forall|i: int|
                    0 <= i < 8 ==> #[trigger] zero_run(address.segments@, i) <= end - start
                &&& forall|i: int|
                    0 <= i < start ==> #[trigger] zero_run(address.segments@, i) < end - start
                &&& ipv6_text(address) == segments_text(#[trigger] address.segments@.take(start))
                    + seq![':', ':'] + segments_text(#[trigger] address.segments@.skip(end))
            },
{
    let segments = address.segments@;
    let start = longest_run(segments, 8);
    let run = zero_run(segments, start);
    law_the_first_longest_run_is_chosen(segments, 8);
    law_a_run_reaches_to_the_last_zero(segments, start);
    if run > 1 {
        let end: int = start + run;
        assert(segments[start] == 0 && segments[start + 1] == 0);
        if start > 0 {
            assert(zero_run(segments, start - 1) < run);
            assert(segments[start - 1] != 0);
        }
        assert(ipv6_text(address) == segments_text(segments.take(start)) + seq![':', ':']
            + segments_text(segments.skip(end)));
    } else {
        assert forall|i: int| 0 <= i < 7 implies !(#[trigger] segments[i] == 0 && segments[i + 1]
            == 0) by {
            if segments[i] == 0 && segments[i + 1] == 0 {
                reveal_with_fuel(zero_run, 3);
                assert(zero_run(segments, i) >= 2);
            }
        }
    }
}

/// An IPv6 address that stands for an IPv4 address is `::ffff:` and the dotted notation of the
/// four bytes of its last two segments.
pub proof fn law_the_notation_of_mapped_addresses(address: Ipv6Addr, v4: Ipv4Addr)
    requires
        forall|i: int| 0 <= i < 5 ==> #[trigger] address.segments@[i] == 0,
        address.segments@[5] == 0xffff,
        address.segments@[6] == v4.a * 256 + v4.b,
        address.segments@[7] == v4.c * 256 + v4.d,
    ensures
        ipv6_text(address) == "::ffff:"@ + ipv4_text(v4),
{
    reveal_strlit("::ffff:");
    assert("::ffff:"@ =~= seq![':', ':', 'f', 'f', 'f', 'f', ':']);
    assert(mapped_ipv4(address.segments@) == v4);
}

/// An address of either kind is written in the notation of its kind, and the notations of many
/// stand in their order.
pub proof fn law_the_notations_of_addresses(addresses: Seq<IpAddr>, fours: Seq<Ipv4Addr>, i: int)
    ensures
        ip_texts(addresses).len() == addresses.len(),
        0 <= i < addresses.len() && addresses[i] is V4 ==> ip_texts(addresses)[i] == ipv4_text(
            addresses[i]->V4_0,
        ),
        0 <= i < addresses.len() && addresses[i] is V6 ==> ip_texts(addresses)[i] == ipv6_text(
            addresses[i]->V6_0,
        ),
        ipv4_texts(fours).len() == fours.len(),
        0 <= i < fours.len() ==> ipv4_texts(fours)[i] == ipv4_text(fours[i]),
{
}

/// Of a list of addresses the first IPv4 address is written, whatever IPv6 addresses stand before
/// it and whatever stands behind it; where there is none, nothing is.
pub proof fn law_the_first_ipv4_address_is_written(
    before: Seq<IpAddr>,
    address: Ipv4Addr,
    behind: Seq<IpAddr>,
)
    requires
        forall|i: int| 0 <= i < before.len() ==> #[trigger] before[i] is V6,
    ensures
        first_ipv4_text(before + seq![IpAddr::V4(address)] + behind) == ipv4_text(address),
        first_ipv4_text(before).len() == 0,
    decreases before.len(),
{
    let whole = before + seq![IpAddr::V4(address)] + behind;
    if before.len() == 0 {
        assert(whole[0] == IpAddr::V4(address));
    } else {
        assert(whole[0] == before[0]);
        law_the_first_ipv4_address_is_written(before.skip(1), address, behind);
        assert(whole.skip(1) =~= before.skip(1) + seq![IpAddr::V4(address)] + behind);
    }
}

} // verus!
