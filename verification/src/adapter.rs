//! Which network adapter carries the authentication traffic.
//!
//! The login frame states the adapter's address and MAC, and the socket binds to that address, so
//! a virtual adapter must never be chosen. Adapters are filtered by status, type, name, MAC and
//! address, and ranked: the interface that the system would use to reach the server counts most,
//! then a gateway, then a wired medium.

use vstd::prelude::*;

use crate::net::{self, IpAddr, Ipv4Addr, Ipv6Addr};
use crate::text;

verus! {

/// MAC used when no adapter can be queried.
pub const DEFAULT_MAC: u64 = 0x8888_8888_8888;

/// What an adapter scores for lying on the way to the server: more than everything else together.
pub const SCORE_PREFERRED_ROUTE: u32 = 1000;

pub const SCORE_HAS_GATEWAY: u32 = 300;

pub const SCORE_REAL_MEDIA: u32 = 200;

/// The interface type of wired Ethernet.
pub const IF_TYPE_ETHERNET_CSMACD: u32 = 6;

/// The interface type of wireless networks.
pub const IF_TYPE_IEEE80211: u32 = 71;

/// The status of an interface that is up.
pub const IF_OPER_STATUS_UP: i32 = 1;

/// The longest hardware address that the system reports.
pub const MAX_ADAPTER_ADDRESS_LENGTH: usize = 8;

/// The address family of IPv4 socket addresses.
pub const AF_INET: u16 = 2;

/// The address family of IPv6 socket addresses.
pub const AF_INET6: u16 = 23;

#[derive(Debug, Clone, PartialEq, Eq)]
pub struct AdapterInfo {
    pub friendly_name: String,
    pub description: String,
    pub ipv4: Ipv4Addr,
    pub mac: u64,
    pub is_wireless: bool,
    pub has_gateway: bool,
    /// The index under which the routing table knows the interface.
    pub interface_index: u32,
    pub details: NetworkDetails,
}

#[derive(Debug, Clone, PartialEq, Eq)]
pub struct NetworkDetails {
    pub subnet_mask: Option<Ipv4Addr>,
    pub ipv6: Vec<IpAddr>,
    pub gateways: Vec<IpAddr>,
    pub dns: Vec<IpAddr>,
}

impl Default for NetworkDetails {
    fn default() -> (details: Self)
        ensures
            details.subnet_mask is None,
            details.ipv6@ == Seq::<IpAddr>::empty(),
            details.gateways@ == Seq::<IpAddr>::empty(),
            details.dns@ == Seq::<IpAddr>::empty(),
    {
        NetworkDetails {
            subnet_mask: None,
            ipv6: Vec::new(),
            gateways: Vec::new(),
            dns: Vec::new(),
        }
    }
}

/// One address of an adapter as the system reports it.
#[derive(Debug, Clone, Copy, PartialEq, Eq)]
pub struct RawUnicast {
    /// The address, where its family is known.
    pub address: Option<IpAddr>,
    /// How many bits of it name the network.
    pub prefix: u8,
}

/// An adapter as the system reports it.
#[derive(Debug, Clone, PartialEq, Eq)]
pub struct RawAdapter {
    pub oper_status: i32,
    pub if_type: u32,
    pub friendly_name: String,
    pub description: String,
    /// The hardware address, as long as the system says it is.
    pub physical_address: Vec<u8>,
    pub unicast: Vec<RawUnicast>,
    pub gateways: Vec<Option<IpAddr>>,
    pub dns: Vec<Option<IpAddr>>,
    pub interface_index: u32,
}

/// The mathematical content of an `AdapterInfo`.
pub struct AdapterView {
    pub friendly_name: Seq<char>,
    pub description: Seq<char>,
    pub ipv4: Ipv4Addr,
    pub mac: u64,
    pub is_wireless: bool,
    pub has_gateway: bool,
    pub interface_index: u32,
    pub subnet_mask: Option<Ipv4Addr>,
    pub ipv6: Seq<IpAddr>,
    pub gateways: Seq<IpAddr>,
    pub dns: Seq<IpAddr>,
}

impl View for AdapterInfo {
    type V = AdapterView;

    open spec fn view(&self) -> AdapterView {
        AdapterView {
            friendly_name: self.friendly_name@,
            description: self.description@,
            ipv4: self.ipv4,
            mac: self.mac,
            is_wireless: self.is_wireless,
            has_gateway: self.has_gateway,
            interface_index: self.interface_index,
            subnet_mask: self.details.subnet_mask,
            ipv6: self.details.ipv6@,
            gateways: self.details.gateways@,
            dns: self.details.dns@,
        }
    }
}

/// `fe80::/10`
pub open spec fn link_local(address: IpAddr) -> bool {
    match address {
        IpAddr::V6(v6) => 0xfe80 <= v6.segments@[0] <= 0xfebf,
        IpAddr::V4(_) => false,
    }
}

/// The addresses of a list that are not link-local, in order.
pub open spec fn routable(addresses: Seq<IpAddr>) -> Seq<IpAddr>
    decreases addresses.len(),
{
    if addresses.len() == 0 {
        Seq::empty()
    } else if link_local(addresses.last()) {
        routable(addresses.drop_last())
    } else {
        routable(addresses.drop_last()).push(addresses.last())
    }
}

/// How many routable IPv6 addresses adapters hold between them.
pub open spec fn routable_total(adapters: Seq<AdapterInfo>) -> nat
    decreases adapters.len(),
{
    if adapters.len() == 0 {
        0
    } else {
        routable_total(adapters.drop_last()) + routable(adapters.last().details.ipv6@).len()
    }
}

/// What an adapter scores.
pub open spec fn score_of(adapter: AdapterView, preferred_route: Option<u32>) -> nat {
    (if preferred_route == Some(adapter.interface_index) {
        SCORE_PREFERRED_ROUTE as nat
    } else {
        0
    }) + (if adapter.has_gateway {
        SCORE_HAS_GATEWAY as nat
    } else {
        0
    }) + (if !adapter.is_wireless {
        SCORE_REAL_MEDIA as nat
    } else {
        0
    })
}

/// Whether an adapter is the first of those with the highest score.
pub open spec fn is_best(adapters: Seq<AdapterInfo>, preferred_route: Option<u32>, i: int) -> bool {
    &&& 0 <= i < adapters.len()
    &&& forall|j: int|
        0 <= j < adapters.len() ==> score_of(#[trigger] adapters[j]@, preferred_route) <= score_of(
            adapters[i]@,
            preferred_route,
        )
    &&& forall|j: int|
        0 <= j < i ==> score_of(#[trigger] adapters[j]@, preferred_route) < score_of(
            adapters[i]@,
            preferred_route,
        )
}

/// Words that name an adapter which never carries campus traffic.
pub open spec fn virtual_keywords() -> Seq<Seq<char>> {
    seq![
        "hyper-v"@,
        "vethernet"@,
        "vmware"@,
        "virtualbox"@,
        "vbox"@,
        "wsl"@,
        "loopback"@,
        "tap-"@,
        "tap "@,
        "tun"@,
        "vpn"@,
        "bluetooth"@,
        "npcap"@,
        "winpcap"@,
        "tailscale"@,
        "zerotier"@,
        "wan miniport"@,
        "wi-fi direct"@,
        "wifi direct"@,
        "teredo"@,
        "isatap"@,
        "docker"@,
        "forticlient"@,
        "wireguard"@,
    ]
}

/// Whether a description in lower case names a virtual adapter.
pub open spec fn names_virtual(lowered: Seq<char>) -> bool {
    exists|i: int|
        0 <= i < virtual_keywords().len() && text::holds(
            lowered,
            #[trigger] virtual_keywords()[i],
        )
}

/// What `str::to_lowercase` makes of a text.
pub uninterp spec fn lowercase_of(value: Seq<char>) -> Seq<char>;

/// `str::to_lowercase` of std: the lower-case form of a text by the Unicode tables. The contract
/// says only that it depends on nothing but the text.
#[verifier::external_body]
fn to_lowercase(value: &str) -> (lowered: String)
    ensures
        lowered@ == lowercase_of(value@),
{
    value.to_lowercase()
}

/// What stands for an adapter in the search for virtual ones.
pub open spec fn haystack(friendly_name: Seq<char>, description: Seq<char>) -> Seq<char> {
    friendly_name + " "@ + description
}

/// The number of the first six bytes of a hardware address, unless they are too few or all zero.
pub open spec fn mac_of(address: Seq<u8>) -> Option<u64> {
    if address.len() < 6 || address.take(6) == crate::bytes::zeros(6) {
        None
    } else {
        Some(crate::reference_login::be_value(address.take(6)) as u64)
    }
}

/// Whether an address can carry traffic.
pub open spec fn usable(address: Ipv4Addr) -> bool {
    address != net::unspecified() && !address.loopback() && !address.link_local()
}

pub open spec fn usable_unicast(entry: RawUnicast) -> bool {
    entry.address matches Some(IpAddr::V4(v4)) && usable(v4)
}

/// The first usable IPv4 address of an adapter.
pub open spec fn first_usable(entries: Seq<RawUnicast>) -> Option<RawUnicast>
    decreases entries.len(),
{
    if entries.len() == 0 {
        None
    } else if usable_unicast(entries[0]) {
        Some(entries[0])
    } else {
        first_usable(entries.skip(1))
    }
}

/// The IPv6 addresses of an adapter, in order.
pub open spec fn ipv6_of(entries: Seq<RawUnicast>) -> Seq<IpAddr>
    decreases entries.len(),
{
    if entries.len() == 0 {
        Seq::empty()
    } else {
        let before = ipv6_of(entries.drop_last());
        match entries.last().address {
            Some(address) => if address is V6 {
                before.push(address)
            } else {
                before
            },
            None => before,
        }
    }
}

/// The addresses that are known, in order.
pub open spec fn known(addresses: Seq<Option<IpAddr>>) -> Seq<IpAddr>
    decreases addresses.len(),
{
    if addresses.len() == 0 {
        Seq::empty()
    } else {
        let before = known(addresses.drop_last());
        match addresses.last() {
            Some(address) => before.push(address),
            None => before,
        }
    }
}

/// `2^n`
pub open spec fn power2(n: nat) -> nat
    decreases n,
{
    if n == 0 {
        1
    } else {
        2 * power2((n - 1) as nat)
    }
}

/// The mask whose first `prefix` bits are one; there is none for zero bits or more than 32.
pub open spec fn mask_of(prefix: u8) -> Option<Ipv4Addr> {
    if 0 < prefix <= 32 {
        let number = (power2(32) - power2((32 - prefix) as nat)) as u32;
        Some(
            Ipv4Addr {
                a: (number / 16777216) as u8,
                b: (number / 65536 % 256) as u8,
                c: (number / 256 % 256) as u8,
                d: (number % 256) as u8,
            },
        )
    } else {
        None
    }
}

/// Whether an adapter may be looked at any further: up, wired or wireless, not virtual, and with
/// a hardware address of a length that the system can report.
pub open spec fn is_candidate(raw: RawAdapter) -> bool {
    &&& raw.oper_status == IF_OPER_STATUS_UP
    &&& raw.if_type == IF_TYPE_ETHERNET_CSMACD || raw.if_type == IF_TYPE_IEEE80211
    &&& !names_virtual(lowercase_of(haystack(raw.friendly_name@, raw.description@)))
    &&& 0 < raw.physical_address@.len() <= MAX_ADAPTER_ADDRESS_LENGTH
}

/// The adapter that a report describes, where it is one that can carry the traffic.
pub open spec fn adapter_of(raw: RawAdapter) -> Option<AdapterView> {
    match (mac_of(raw.physical_address@), first_usable(raw.unicast@)) {
        (Some(mac), Some(entry)) => if is_candidate(raw) {
            Some(
                AdapterView {
                    friendly_name: raw.friendly_name@,
                    description: raw.description@,
                    ipv4: entry.address->0->V4_0,
                    mac,
                    is_wireless: raw.if_type == IF_TYPE_IEEE80211,
                    has_gateway: raw.gateways@.len() > 0,
                    interface_index: raw.interface_index,
                    subnet_mask: mask_of(entry.prefix),
                    ipv6: ipv6_of(raw.unicast@),
                    gateways: known(raw.gateways@),
                    dns: known(raw.dns@),
                },
            )
        } else {
            None
        },
        _ => None,
    }
}

/// Whether an IPv6 address is link-local, which means that IPv6 runs but reaches nothing.
pub fn is_link_local(address: &IpAddr) -> (yes: bool)
    ensures
        yes == link_local(*address),
{
    match address {
        IpAddr::V6(v6) => 0xfe80 <= v6.segments[0] && v6.segments[0] <= 0xfebf,
        IpAddr::V4(_) => false,
    }
}

/// The addresses of a list that are not link-local.
pub fn routable_addresses(addresses: &[IpAddr]) -> (found: Vec<IpAddr>)
    ensures
        found@ == routable(addresses@),
{
    let mut found: Vec<IpAddr> = Vec::new();
    let mut i: usize = 0;
    assert(addresses@.take(0) =~= Seq::empty());
    while i < addresses.len()
        invariant
            i <= addresses@.len(),
            found@ == routable(addresses@.take(i as int)),
        decreases addresses@.len() - i,
    {
        proof {
            let next = addresses@.take(i + 1);
            assert(next.drop_last() =~= addresses@.take(i as int));
            assert(next.last() == addresses@[i as int]);
        }
        if !is_link_local(&addresses[i]) {
            found.push(addresses[i]);
        }
        i += 1;
    }
    assert(addresses@.take(addresses@.len() as int) =~= addresses@);
    found
}

/// How many routable IPv6 addresses adapters hold between them, as far as that can be counted.
pub fn global_ipv6_count(adapters: &[AdapterInfo]) -> (count: usize)
    ensures
        count == (if routable_total(adapters@) <= usize::MAX {
            routable_total(adapters@)
        } else {
            usize::MAX as nat
        }),
{
    let mut count: usize = 0;
    let mut i: usize = 0;
    assert(adapters@.take(0) =~= Seq::empty());
    while i < adapters.len()
        invariant
            i <= adapters@.len(),
            count == (if routable_total(adapters@.take(i as int)) <= usize::MAX {
                routable_total(adapters@.take(i as int))
            } else {
                usize::MAX as nat
            }),
        decreases adapters@.len() - i,
    {
        proof {
            let next = adapters@.take(i + 1);
            assert(next.drop_last() =~= adapters@.take(i as int));
            assert(next.last() == adapters@[i as int]);
        }
        count = count.saturating_add(routable_addresses(&adapters[i].details.ipv6).len());
        i += 1;
    }
    assert(adapters@.take(adapters@.len() as int) =~= adapters@);
    count
}

/// What an adapter scores.
pub fn score(adapter: &AdapterInfo, preferred_route: Option<u32>) -> (points: u32)
    ensures
        points == score_of(adapter@, preferred_route),
{
    let mut points: u32 = 0;
    if let Some(index) = preferred_route {
        if index == adapter.interface_index {
            points = points + SCORE_PREFERRED_ROUTE;
        }
    }
    if adapter.has_gateway {
        points = points + SCORE_HAS_GATEWAY;
    }
    if !adapter.is_wireless {
        points = points + SCORE_REAL_MEDIA;
    }
    points
}

/// The adapter that should carry the traffic: the first of those with the highest score, given
/// the interface that the system would use to reach the server.
pub fn select_for(adapters: &[AdapterInfo], preferred_route: Option<u32>) -> (best: Option<usize>)
    ensures
        match best {
            Some(i) => is_best(adapters@, preferred_route, i as int),
            None => adapters@.len() == 0,
        },
{
    if adapters.len() == 0 {
        return None;
    }
    let mut best: usize = 0;
    let mut points: u32 = score(&adapters[0], preferred_route);
    let mut i: usize = 1;
    while i < adapters.len()
        invariant
            1 <= i <= adapters@.len(),
            best < i,
            points == score_of(adapters@[best as int]@, preferred_route),
            forall|j: int|
                0 <= j < i ==> score_of(#[trigger] adapters@[j]@, preferred_route) <= points,
            forall|j: int|
                0 <= j < best ==> score_of(#[trigger] adapters@[j]@, preferred_route) < points,
        decreases adapters@.len() - i,
    {
        let here: u32 = score(&adapters[i], preferred_route);
        if here > points {
            best = i;
            points = here;
        }
        i += 1;
    }
    Some(best)
}

/// The adapter that should carry the traffic when no server is known.
pub fn select(adapters: &[AdapterInfo]) -> (best: Option<usize>)
    ensures
        match best {
            Some(i) => is_best(adapters@, None, i as int),
            None => adapters@.len() == 0,
        },
{
    select_for(adapters, None)
}

/// The first adapter with an address.
pub fn find_by_address(adapters: &[AdapterInfo], address: Ipv4Addr) -> (found: Option<usize>)
    ensures
        match found {
            Some(i) => {
                &&& i < adapters@.len()
                &&& adapters@[i as int].ipv4 == address
                &&& forall|j: int| 0 <= j < i ==> (#[trigger] adapters@[j]).ipv4 != address
            },
            None => forall|j: int|
                0 <= j < adapters@.len() ==> (#[trigger] adapters@[j]).ipv4 != address,
        },
{
    let mut i: usize = 0;
    while i < adapters.len()
        invariant
            i <= adapters@.len(),
            forall|j: int| 0 <= j < i ==> (#[trigger] adapters@[j]).ipv4 != address,
        decreases adapters@.len() - i,
    {
        if adapters[i].ipv4 == address {
            return Some(i);
        }
        i += 1;
    }
    None
}

/// Whether two adapters are the same physical one: interface, MAC and name.
pub open spec fn same_adapter(one: AdapterView, other: AdapterView) -> bool {
    &&& one.interface_index == other.interface_index
    &&& one.mac == other.mac
    &&& one.friendly_name == other.friendly_name
}

/// Whether an adapter is still among those that the system reports.
pub fn still_present(adapters: &[AdapterInfo], chosen: &AdapterInfo) -> (present: bool)
    ensures
        present == exists|i: int|
            0 <= i < adapters@.len() && same_adapter(#[trigger] adapters@[i]@, chosen@),
{
    let mut i: usize = 0;
    while i < adapters.len()
        invariant
            i <= adapters@.len(),
            forall|j: int| 0 <= j < i ==> !same_adapter(#[trigger] adapters@[j]@, chosen@),
        decreases adapters@.len() - i,
    {
        let item = &adapters[i];
        if item.interface_index == chosen.interface_index && item.mac == chosen.mac
            && item.friendly_name == chosen.friendly_name {
            assert(same_adapter(adapters@[i as int]@, chosen@));
            return true;
        }
        i += 1;
    }
    false
}

/// Whether a description in lower case names a virtual adapter.
pub fn names_virtual_adapter(lowered: &str) -> (yes: bool)
    ensures
        yes == names_virtual(lowered@),
{
    let chars = text::chars_of(lowered);
    let words: [&str; 24] = [
        "hyper-v",
        "vethernet",
        "vmware",
        "virtualbox",
        "vbox",
        "wsl",
        "loopback",
        "tap-",
        "tap ",
        "tun",
        "vpn",
        "bluetooth",
        "npcap",
        "winpcap",
        "tailscale",
        "zerotier",
        "wan miniport",
        "wi-fi direct",
        "wifi direct",
        "teredo",
        "isatap",
        "docker",
        "forticlient",
        "wireguard",
    ];
    assert forall|j: int| 0 <= j < 24 implies words@[j]@ == #[trigger] virtual_keywords()[j] by {
    }
    let mut i: usize = 0;
    while i < 24
        invariant
            i <= 24,
            chars@ == lowered@,
            forall|j: int| 0 <= j < 24 ==> words@[j]@ == #[trigger] virtual_keywords()[j],
            forall|j: int|
                0 <= j < i ==> !text::holds(lowered@, #[trigger] virtual_keywords()[j]),
        decreases 24 - i,
    {
        let word = words[i];
        assert(word@ == virtual_keywords()[i as int]);
        if text::contains(&chars, &text::chars_of(word)) {
            return true;
        }
        i += 1;
    }
    assert(virtual_keywords().len() == 24);
    false
}

/// Whether an adapter's name or description gives it away as virtual, in any case of letters.
pub fn looks_virtual(friendly_name: &str, description: &str) -> (yes: bool)
    ensures
        yes == names_virtual(lowercase_of(haystack(friendly_name@, description@))),
{
    let mut both = friendly_name.to_string();
    both.append(" ");
    both.append(description);
    names_virtual_adapter(&to_lowercase(&both))
}

/// The number of a hardware address.
pub fn mac_from_bytes(address: &[u8]) -> (mac: Option<u64>)
    ensures
        mac == mac_of(address@),
        mac matches Some(number) ==> 0 < number < 0x1_0000_0000_0000,
{
    if address.len() < 6 {
        return None;
    }
    let six = crate::bytes::array_at::<6>(address, 0);
    assert(address@.subrange(0, 6) =~= address@.take(6));
    if six[0] == 0 && six[1] == 0 && six[2] == 0 && six[3] == 0 && six[4] == 0 && six[5] == 0 {
        assert(address@.take(6) =~= crate::bytes::zeros(6));
        return None;
    }
    proof {
        let taken = address@.take(6);
        assert(taken[0] != 0 || taken[1] != 0 || taken[2] != 0 || taken[3] != 0 || taken[4] != 0
            || taken[5] != 0);
        assert(taken != crate::bytes::zeros(6));
        reveal_with_fuel(crate::reference_login::be_value, 7);
        assert(taken.drop_last().drop_last().drop_last().drop_last().drop_last().drop_last().len()
            == 0);
        assert(taken.drop_last().drop_last().drop_last().drop_last().drop_last().last()
            == taken[0]);
        assert(taken.drop_last().drop_last().drop_last().drop_last().last() == taken[1]);
        assert(taken.drop_last().drop_last().drop_last().last() == taken[2]);
        assert(taken.drop_last().drop_last().last() == taken[3]);
        assert(taken.drop_last().last() == taken[4]);
        assert(taken.last() == taken[5]);
    }
    let number: u64 = ((((six[0] as u64 * 256 + six[1] as u64) * 256 + six[2] as u64) * 256
        + six[3] as u64) * 256 + six[4] as u64) * 256 + six[5] as u64;
    Some(number)
}

/// Whether an address can carry traffic.
pub fn usable_ipv4(address: Ipv4Addr) -> (yes: bool)
    ensures
        yes == usable(address),
{
    !address.is_unspecified() && !address.is_loopback() && !address.is_link_local()
}

/// The address in a socket address: four bytes at offset 4 for IPv4, sixteen at offset 8 for IPv6.
pub fn ip_from_socket(family: u16, data: &[u8]) -> (address: Option<IpAddr>)
    ensures
        match address {
            Some(IpAddr::V4(v4)) => family == AF_INET && data@.len() >= 8 && v4.bytes()
                == data@.subrange(4, 8),
            Some(IpAddr::V6(v6)) => family == AF_INET6 && data@.len() >= 24 && forall|i: int|
                0 <= i < 8 ==> #[trigger] v6.segments@[i] == data@[8 + 2 * i] as int * 256
                    + data@[9 + 2 * i] as int,
            None => !(family == AF_INET && data@.len() >= 8) && !(family == AF_INET6 && data@.len()
                >= 24),
        },
{
    if family == AF_INET && data.len() >= 8 {
        return Some(IpAddr::V4(Ipv4Addr::from_octets(crate::bytes::array_at::<4>(data, 4))));
    }
    if family == AF_INET6 && data.len() >= 24 {
        let segments: [u16; 8] = [
            data[8] as u16 * 256 + data[9] as u16,
            data[10] as u16 * 256 + data[11] as u16,
            data[12] as u16 * 256 + data[13] as u16,
            data[14] as u16 * 256 + data[15] as u16,
            data[16] as u16 * 256 + data[17] as u16,
            data[18] as u16 * 256 + data[19] as u16,
            data[20] as u16 * 256 + data[21] as u16,
            data[22] as u16 * 256 + data[23] as u16,
        ];
        return Some(IpAddr::V6(Ipv6Addr { segments }));
    }
    None
}

fn doubled(n: u8) -> (value: u64)
    requires
        n <= 32,
    ensures
        value == power2(n as nat),
        value <= 0x1_0000_0000,
{
    let mut value: u64 = 1;
    let mut i: u8 = 0;
    while i < n
        invariant
            i <= n <= 32,
            value == power2(i as nat),
        decreases n - i,
    {
        proof {
            lemma_power2(i as nat, 32);
            lemma_power2_at_32();
        }
        value = value * 2;
        i += 1;
    }
    proof {
        lemma_power2(n as nat, 32);
        lemma_power2_at_32();
    }
    value
}

/// Powers of two grow.
pub proof fn lemma_power2(n: nat, m: nat)
    requires
        n <= m,
    ensures
        1 <= power2(n) <= power2(m),
        n < m ==> 2 * power2(n) <= power2(m),
    decreases m,
{
    if n < m {
        lemma_power2(n, (m - 1) as nat);
    } else if n > 0 {
        lemma_power2((n - 1) as nat, (n - 1) as nat);
    }
}

/// How many IPv4 addresses there are.
pub proof fn lemma_power2_at_32()
    ensures
        power2(32) == 0x1_0000_0000,
{
    reveal_with_fuel(power2, 33);
}

/// The mask of a prefix length.
pub fn subnet_mask(prefix: u8) -> (mask: Option<Ipv4Addr>)
    ensures
        mask == mask_of(prefix),
{
    if prefix == 0 || prefix > 32 {
        return None;
    }
    let hosts: u64 = doubled(32 - prefix);
    proof {
        lemma_power2((32 - prefix) as nat, 32);
        lemma_power2_at_32();
    }
    let number: u32 = (0x1_0000_0000u64 - hosts) as u32;
    Some(
        Ipv4Addr::new(
            (number / 16777216) as u8,
            (number / 65536 % 256) as u8,
            (number / 256 % 256) as u8,
            (number % 256) as u8,
        ),
    )
}

fn find_usable(entries: &[RawUnicast]) -> (found: Option<(Ipv4Addr, u8)>)
    ensures
        match found {
            Some((address, prefix)) => first_usable(entries@) matches Some(entry) && entry.address
                == Some(IpAddr::V4(address)) && entry.prefix == prefix && usable(address),
            None => first_usable(entries@) is None,
        },
{
    let mut i: usize = 0;
    assert(entries@.skip(0) =~= entries@);
    while i < entries.len()
        invariant
            i <= entries@.len(),
            first_usable(entries@) == first_usable(entries@.skip(i as int)),
        decreases entries@.len() - i,
    {
        let entry = entries[i];
        assert(entries@.skip(i as int)[0] == entry);
        assert(entries@.skip(i as int).skip(1) =~= entries@.skip(i + 1));
        if let Some(IpAddr::V4(address)) = entry.address {
            if usable_ipv4(address) {
                return Some((address, entry.prefix));
            }
        }
        i += 1;
    }
    None
}

fn collect_ipv6(entries: &[RawUnicast]) -> (found: Vec<IpAddr>)
    ensures
        found@ == ipv6_of(entries@),
{
    let mut found: Vec<IpAddr> = Vec::new();
    let mut i: usize = 0;
    assert(entries@.take(0) =~= Seq::empty());
    while i < entries.len()
        invariant
            i <= entries@.len(),
            found@ == ipv6_of(entries@.take(i as int)),
        decreases entries@.len() - i,
    {
        proof {
            let next = entries@.take(i + 1);
            assert(next.drop_last() =~= entries@.take(i as int));
            assert(next.last() == entries@[i as int]);
        }
        if let Some(IpAddr::V6(address)) = entries[i].address {
            found.push(IpAddr::V6(address));
        }
        i += 1;
    }
    assert(entries@.take(entries@.len() as int) =~= entries@);
    found
}

fn collect_known(addresses: &[Option<IpAddr>]) -> (found: Vec<IpAddr>)
    ensures
        found@ == known(addresses@),
{
    let mut found: Vec<IpAddr> = Vec::new();
    let mut i: usize = 0;
    assert(addresses@.take(0) =~= Seq::empty());
    while i < addresses.len()
        invariant
            i <= addresses@.len(),
            found@ == known(addresses@.take(i as int)),
        decreases addresses@.len() - i,
    {
        proof {
            let next = addresses@.take(i + 1);
            assert(next.drop_last() =~= addresses@.take(i as int));
            assert(next.last() == addresses@[i as int]);
        }
        if let Some(address) = addresses[i] {
            found.push(address);
        }
        i += 1;
    }
    assert(addresses@.take(addresses@.len() as int) =~= addresses@);
    found
}

/// The adapter that a report describes, where it is one that can carry the traffic.
pub fn read_adapter(raw: &RawAdapter) -> (adapter: Option<AdapterInfo>)
    ensures
        match adapter {
            Some(info) => adapter_of(*raw) == Some(info@),
            None => adapter_of(*raw) is None,
        },
{
    if raw.oper_status != IF_OPER_STATUS_UP {
        return None;
    }
    if raw.if_type != IF_TYPE_ETHERNET_CSMACD && raw.if_type != IF_TYPE_IEEE80211 {
        return None;
    }
    if looks_virtual(&raw.friendly_name, &raw.description) {
        return None;
    }
    let length: usize = raw.physical_address.len();
    if length == 0 || length > MAX_ADAPTER_ADDRESS_LENGTH {
        return None;
    }
    let mac: u64 = match mac_from_bytes(&raw.physical_address) {
        Some(mac) => mac,
        None => return None,
    };
    let (ipv4, prefix) = match find_usable(&raw.unicast) {
        Some(found) => found,
        None => return None,
    };
    let details = NetworkDetails {
        subnet_mask: subnet_mask(prefix),
        ipv6: collect_ipv6(&raw.unicast),
        gateways: collect_known(&raw.gateways),
        dns: collect_known(&raw.dns),
    };
    Some(
        AdapterInfo {
            friendly_name: raw.friendly_name.clone(),
            description: raw.description.clone(),
            ipv4,
            mac,
            is_wireless: raw.if_type == IF_TYPE_IEEE80211,
            has_gateway: raw.gateways.len() > 0,
            interface_index: raw.interface_index,
            details,
        },
    )
}

/// Every adapter that looks physically present and usable, in the order of the reports.
pub open spec fn usable_adapters(reports: Seq<RawAdapter>) -> Seq<AdapterView>
    decreases reports.len(),
{
    if reports.len() == 0 {
        Seq::empty()
    } else {
        match adapter_of(reports.last()) {
            Some(adapter) => usable_adapters(reports.drop_last()).push(adapter),
            None => usable_adapters(reports.drop_last()),
        }
    }
}

/// The views of adapters.
pub open spec fn adapter_views(adapters: Seq<AdapterInfo>) -> Seq<AdapterView> {
    adapters.map_values(|adapter: AdapterInfo| adapter@)
}

/// Every adapter that looks physically present and usable.
pub fn list(reports: &[RawAdapter]) -> (adapters: Vec<AdapterInfo>)
    ensures
        adapter_views(adapters@) == usable_adapters(reports@),
{
    let mut adapters: Vec<AdapterInfo> = Vec::new();
    let mut i: usize = 0;
    assert(reports@.take(0) =~= Seq::empty());
    assert(adapter_views(adapters@) =~= Seq::empty());
    while i < reports.len()
        invariant
            i <= reports@.len(),
            adapter_views(adapters@) == usable_adapters(reports@.take(i as int)),
        decreases reports@.len() - i,
    {
        proof {
            let next = reports@.take(i + 1);
            assert(next.drop_last() =~= reports@.take(i as int));
            assert(next.last() == reports@[i as int]);
        }
        let ghost before = adapters@;
        if let Some(adapter) = read_adapter(&reports[i]) {
            adapters.push(adapter);
            assert(adapter_views(adapters@) =~= adapter_views(before).push(adapter@));
        }
        i += 1;
    }
    assert(reports@.take(reports@.len() as int) =~= reports@);
    adapters
}

/// An adapter on the way to the server beats every adapter that is not, whatever else they have.
pub proof fn law_the_way_to_the_server_wins(on_it: AdapterView, off_it: AdapterView, route: u32)
    requires
        on_it.interface_index == route,
        off_it.interface_index != route,
    ensures
        score_of(on_it, Some(route)) > score_of(off_it, Some(route)),
{
}

/// Where the way to the server does not decide, an adapter with a gateway beats one without, and
/// of two alike in that the wired one wins.
pub proof fn law_gateways_and_wires_come_next(
    one: AdapterView,
    other: AdapterView,
    route: Option<u32>,
)
    requires
        route == Some(one.interface_index) <==> route == Some(other.interface_index),
    ensures
        one.has_gateway && !other.has_gateway ==> score_of(one, route) > score_of(other, route),
        one.has_gateway == other.has_gateway && !one.is_wireless && other.is_wireless ==> score_of(
            one,
            route,
        ) > score_of(other, route),
{
}

/// Whatever the system reports, every adapter that comes out has a usable address and a MAC, and
/// is not virtual.
pub proof fn law_only_usable_adapters_come_out(raw: RawAdapter)
    requires
        adapter_of(raw) is Some,
    ensures
        usable(adapter_of(raw)->0.ipv4),
        mac_of(raw.physical_address@) == Some(adapter_of(raw)->0.mac),
        !names_virtual(lowercase_of(haystack(raw.friendly_name@, raw.description@))),
{
    lemma_first_usable(raw.unicast@);
}

proof fn lemma_first_usable(entries: Seq<RawUnicast>)
    ensures
        first_usable(entries) matches Some(entry) ==> usable_unicast(entry),
    decreases entries.len(),
{
    if entries.len() > 0 && !usable_unicast(entries[0]) {
        lemma_first_usable(entries.skip(1));
    }
}

/// An IPv6 address is link-local where its first ten bits are `1111111010`; no IPv4 address is.
pub proof fn law_what_is_link_local(address: IpAddr)
    ensures
        link_local(address) <==> (address is V6 && address->V6_0.segments@[0] as int / 64 == 1018),
{
}

/// Link-local addresses are left out and every other address is kept, in order: the choice among
/// the addresses of two lists joined is that of the first and then that of the second.
pub proof fn law_routable_addresses_are_kept(front: Seq<IpAddr>, back: Seq<IpAddr>, one: IpAddr)
    ensures
        routable(front + back) == routable(front) + routable(back),
        routable(seq![one]) == (if one is V6 && 0xfe80 <= one->V6_0.segments@[0] < 0xfec0 {
            Seq::<IpAddr>::empty()
        } else {
            seq![one]
        }),
    decreases back.len(),
{
    assert(seq![one].drop_last() =~= Seq::<IpAddr>::empty());
    assert(routable(Seq::<IpAddr>::empty()) =~= Seq::<IpAddr>::empty());
    assert(routable(seq![one]) =~= (if link_local(one) {
        Seq::<IpAddr>::empty()
    } else {
        seq![one]
    }));
    if back.len() == 0 {
        assert(front + back =~= front);
        assert(routable(front) + routable(back) =~= routable(front));
    } else {
        law_routable_addresses_are_kept(front, back.drop_last(), one);
        assert((front + back).drop_last() =~= front + back.drop_last());
        assert((front + back).last() == back.last());
        assert(routable(front + back) =~= routable(front) + routable(back));
    }
}

/// What adapters hold between them is what each of them holds, added up.
pub proof fn law_routable_addresses_add_up(
    front: Seq<AdapterInfo>,
    back: Seq<AdapterInfo>,
    one: AdapterInfo,
)
    ensures
        routable_total(front + back) == routable_total(front) + routable_total(back),
        routable_total(seq![one]) == routable(one.details.ipv6@).len(),
        routable_total(Seq::empty()) == 0,
    decreases back.len(),
{
    assert(seq![one].drop_last() =~= Seq::<AdapterInfo>::empty());
    assert(seq![one].last() == one);
    assert(routable_total(seq![one]) == routable_total(seq![one].drop_last()) + routable(
        one.details.ipv6@,
    ).len());
    if back.len() == 0 {
        assert(front + back =~= front);
    } else {
        law_routable_addresses_add_up(front, back.drop_last(), one);
        assert((front + back).drop_last() =~= front + back.drop_last());
        assert((front + back).last() == back.last());
    }
}

/// The way to the server counts a thousand points, a gateway three hundred and a wire two hundred.
pub proof fn law_what_counts_how_much(adapter: AdapterView, route: Option<u32>)
    ensures
        score_of(adapter, route) / 1000 == 1 <==> route == Some(adapter.interface_index),
        score_of(adapter, route) % 1000 == 500 <==> (adapter.has_gateway && !adapter.is_wireless),
        score_of(adapter, route) % 1000 == 300 <==> (adapter.has_gateway && adapter.is_wireless),
        score_of(adapter, route) % 1000 == 200 <==> (!adapter.has_gateway && !adapter.is_wireless),
        score_of(adapter, route) % 1000 == 0 <==> (!adapter.has_gateway && adapter.is_wireless),
        score_of(adapter, route) < 2000,
{
}

/// There is one best adapter: no other scores more, and of those that score as much it is the
/// first.
pub proof fn law_the_best_adapter_is_one(
    adapters: Seq<AdapterInfo>,
    route: Option<u32>,
    best: int,
    other: int,
)
    requires
        is_best(adapters, route, best),
        0 <= other < adapters.len(),
    ensures
        score_of(adapters[other]@, route) <= score_of(adapters[best]@, route),
        score_of(adapters[other]@, route) == score_of(adapters[best]@, route) ==> best <= other,
        is_best(adapters, route, other) ==> other == best,
{
}

/// A hardware address has a number where it has six bytes and one of them is not zero: the first
/// six are its digits to the base of 256, whatever follows them.
pub proof fn law_the_number_of_a_hardware_address(address: Seq<u8>)
    ensures
        mac_of(address) is None <==> (address.len() < 6 || (address[0] == 0 && address[1] == 0
            && address[2] == 0 && address[3] == 0 && address[4] == 0 && address[5] == 0)),
        mac_of(address) matches Some(mac) ==> mac == address[0] * 0x100_0000_0000 + address[1]
            * 0x1_0000_0000 + address[2] * 0x100_0000 + address[3] * 0x1_0000 + address[4] * 0x100
            + address[5],
{
    if address.len() >= 6 {
        let taken = address.take(6);
        assert(taken == crate::bytes::zeros(6) <==> (taken[0] == 0 && taken[1] == 0 && taken[2] == 0
            && taken[3] == 0 && taken[4] == 0 && taken[5] == 0)) by {
            if taken[0] == 0 && taken[1] == 0 && taken[2] == 0 && taken[3] == 0 && taken[4] == 0
                && taken[5] == 0 {
                assert(taken =~= crate::bytes::zeros(6));
            }
            assert(crate::bytes::zeros(6)[0] == 0 && crate::bytes::zeros(6)[1] == 0
                && crate::bytes::zeros(6)[2] == 0 && crate::bytes::zeros(6)[3] == 0
                && crate::bytes::zeros(6)[4] == 0 && crate::bytes::zeros(6)[5] == 0);
        }
        reveal_with_fuel(crate::reference_login::be_value, 7);
        assert(taken.drop_last().drop_last().drop_last().drop_last().drop_last().drop_last().len()
            == 0);
        assert(taken.drop_last().drop_last().drop_last().drop_last().drop_last().last()
            == taken[0]);
        assert(taken.drop_last().drop_last().drop_last().drop_last().last() == taken[1]);
        assert(taken.drop_last().drop_last().drop_last().last() == taken[2]);
        assert(taken.drop_last().drop_last().last() == taken[3]);
        assert(taken.drop_last().last() == taken[4]);
        assert(taken.last() == taken[5]);
    }
}

/// An IPv4 address can carry traffic unless it is `0.0.0.0`, begins with 127 or begins with
/// 169.254.
pub proof fn law_what_can_carry_traffic(address: Ipv4Addr)
    ensures
        usable(address) <==> !(address.a == 0 && address.b == 0 && address.c == 0 && address.d == 0)
            && address.a != 127 && !(address.a == 169 && address.b == 254),
{
}

/// The address that an adapter is taken for is the first of its IPv4 addresses that can carry
/// traffic, and there is none only where none can.
pub proof fn law_the_first_usable_address_counts(entries: Seq<RawUnicast>)
    ensures
        first_usable(entries) is None <==> forall|i: int|
            0 <= i < entries.len() ==> !usable_unicast(#[trigger] entries[i]),
        first_usable(entries) matches Some(entry) ==> exists|i: int|
            {
                &&& 0 <= i < entries.len()
                &&& #[trigger] entries[i] == entry
                &&& entry.address is Some && entry.address->0 is V4
                &&& usable(entry.address->0->V4_0)
                &&& forall|j: int|
                    0 <= j < i && entries[j].address is Some && entries[j].address->0 is V4
                        ==> !usable((#[trigger] entries[j]).address->0->V4_0)
            },
    decreases entries.len(),
{
    if entries.len() > 0 && !usable_unicast(entries[0]) {
        let rest = entries.skip(1);
        law_the_first_usable_address_counts(rest);
        if let Some(entry) = first_usable(rest) {
            let k = choose|k: int|
                {
                    &&& 0 <= k < rest.len()
                    &&& #[trigger] rest[k] == entry
                    &&& entry.address is Some && entry.address->0 is V4
                    &&& usable(entry.address->0->V4_0)
                    &&& forall|j: int|
                        0 <= j < k && rest[j].address is Some && rest[j].address->0 is V4
                            ==> !usable((#[trigger] rest[j]).address->0->V4_0)
                };
            assert(entries[k + 1] == entry);
            assert forall|j: int|
                0 <= j < k + 1 && entries[j].address is Some && entries[j].address->0 is V4
                implies !usable((#[trigger] entries[j]).address->0->V4_0) by {
                if j > 0 {
                    assert(rest[j - 1] == entries[j]);
                }
            }
            assert(usable_unicast(entries[k + 1]));
        } else {
            assert forall|i: int| 0 <= i < entries.len() implies !usable_unicast(
                #[trigger] entries[i],
            ) by {
                if i > 0 {
                    assert(rest[i - 1] == entries[i]);
                }
            }
        }
    }
}

/// The IPv6 addresses of an adapter are kept in order, and nothing else is.
pub proof fn law_ipv6_addresses_are_kept(
    front: Seq<RawUnicast>,
    back: Seq<RawUnicast>,
    one: RawUnicast,
)
    ensures
        ipv6_of(front + back) == ipv6_of(front) + ipv6_of(back),
        one.address is Some && one.address->0 is V6 ==> ipv6_of(seq![one]) == seq![one.address->0],
        !(one.address is Some && one.address->0 is V6) ==> ipv6_of(seq![one]).len() == 0,
    decreases back.len(),
{
    assert(seq![one].drop_last() =~= Seq::<RawUnicast>::empty());
    assert(ipv6_of(Seq::<RawUnicast>::empty()) =~= Seq::<IpAddr>::empty());
    if one.address is Some && one.address->0 is V6 {
        assert(ipv6_of(seq![one]) =~= seq![one.address->0]);
    }
    if back.len() == 0 {
        assert(front + back =~= front);
        assert(ipv6_of(front) + ipv6_of(back) =~= ipv6_of(front));
    } else {
        law_ipv6_addresses_are_kept(front, back.drop_last(), one);
        assert((front + back).drop_last() =~= front + back.drop_last());
        assert((front + back).last() == back.last());
        assert(ipv6_of(front + back) =~= ipv6_of(front) + ipv6_of(back));
    }
}

/// Every gateway and name server whose address is known is kept, in order.
pub proof fn law_known_addresses_are_kept(
    front: Seq<Option<IpAddr>>,
    back: Seq<Option<IpAddr>>,
    one: IpAddr,
)
    ensures
        known(front + back) == known(front) + known(back),
        known(seq![Some(one)]) == seq![one],
        known(seq![None::<IpAddr>]) == Seq::<IpAddr>::empty(),
    decreases back.len(),
{
    assert(seq![Some(one)].drop_last() =~= Seq::<Option<IpAddr>>::empty());
    assert(seq![None::<IpAddr>].drop_last() =~= Seq::<Option<IpAddr>>::empty());
    assert(known(Seq::<Option<IpAddr>>::empty()) =~= Seq::<IpAddr>::empty());
    assert(known(seq![Some(one)]) =~= seq![one]);
    if back.len() == 0 {
        assert(front + back =~= front);
        assert(known(front) + known(back) =~= known(front));
    } else {
        law_known_addresses_are_kept(front, back.drop_last(), one);
        assert((front + back).drop_last() =~= front + back.drop_last());
        assert((front + back).last() == back.last());
        assert(known(front + back) =~= known(front) + known(back));
    }
}

/// A prefix of one to 32 bits has a mask, and the mask leaves room for as many addresses as the
/// remaining bits can tell apart.
pub proof fn law_the_mask_of_a_prefix(prefix: u8)
    ensures
        mask_of(prefix) is Some <==> 1 <= prefix <= 32,
        mask_of(prefix) matches Some(mask) ==> mask.a * 0x100_0000 + mask.b * 0x1_0000 + mask.c
            * 0x100 + mask.d + power2((32 - prefix) as nat) == 0x1_0000_0000,
{
    if 1 <= prefix <= 32 {
        lemma_power2_at_32();
        lemma_power2((32 - prefix) as nat, 32);
        lemma_octets_of_a_number((0x1_0000_0000 - power2((32 - prefix) as nat)) as u32);
    }
}

proof fn lemma_octets_of_a_number(number: u32)
    ensures
        (number / 16777216) as u8 * 0x100_0000 + (number / 65536 % 256) as u8 * 0x1_0000 + (number
            / 256 % 256) as u8 * 0x100 + (number % 256) as u8 == number,
{
    let high = number / 65536;
    let low = number % 65536;
    assert(number / 16777216 == high / 256);
    assert(number / 256 % 256 == low / 256);
    assert(number % 256 == low % 256);
    assert(high < 65536);
}

/// An adapter comes out where it is up, wired or wireless, not virtual, and has a hardware address
/// of six to eight bytes that are not all zero and an address that can carry traffic.
pub proof fn law_which_adapters_come_out(raw: RawAdapter)
    ensures
        adapter_of(raw) is Some <==> {
            &&& raw.oper_status == 1
            &&& raw.if_type == 6 || raw.if_type == 71
            &&& !names_virtual(lowercase_of(haystack(raw.friendly_name@, raw.description@)))
            &&& 6 <= raw.physical_address@.len() <= 8
            &&& exists|i: int| 0 <= i < 6 && #[trigger] raw.physical_address@[i] != 0
            &&& exists|i: int|
                0 <= i < raw.unicast@.len() && usable_unicast(#[trigger] raw.unicast@[i])
        },
{
    law_the_number_of_a_hardware_address(raw.physical_address@);
    law_the_first_usable_address_counts(raw.unicast@);
    let bytes = raw.physical_address@;
    if adapter_of(raw) is Some {
        assert(exists|i: int| 0 <= i < 6 && #[trigger] bytes[i] != 0) by {
            assert(bytes[0] != 0 || bytes[1] != 0 || bytes[2] != 0 || bytes[3] != 0 || bytes[4] != 0
                || bytes[5] != 0);
        }
    }
}

/// What comes out of a report is what stands in it: its names, its number in the routing table,
/// its known gateways and name servers. It is wireless by its interface type, it has a gateway
/// where any is listed, known or not, and its mask is that of the address that was chosen.
pub proof fn law_what_comes_out_of_a_report(raw: RawAdapter)
    requires
        adapter_of(raw) is Some,
    ensures
        adapter_of(raw)->0.friendly_name == raw.friendly_name@,
        adapter_of(raw)->0.description == raw.description@,
        adapter_of(raw)->0.is_wireless <==> raw.if_type == 71,
        adapter_of(raw)->0.has_gateway <==> raw.gateways@.len() >= 1,
        adapter_of(raw)->0.interface_index == raw.interface_index,
        adapter_of(raw)->0.ipv6 == ipv6_of(raw.unicast@),
        adapter_of(raw)->0.gateways == known(raw.gateways@),
        adapter_of(raw)->0.dns == known(raw.dns@),
        first_usable(raw.unicast@) is Some,
        first_usable(raw.unicast@)->0.address == Some(IpAddr::V4(adapter_of(raw)->0.ipv4)),
        adapter_of(raw)->0.subnet_mask == mask_of(first_usable(raw.unicast@)->0.prefix),
{
    lemma_first_usable(raw.unicast@);
}

/// Every report that describes a usable adapter adds that adapter, in the order of the reports.
pub proof fn law_usable_adapters_are_kept(
    front: Seq<RawAdapter>,
    back: Seq<RawAdapter>,
    one: RawAdapter,
)
    ensures
        usable_adapters(front + back) == usable_adapters(front) + usable_adapters(back),
        adapter_of(one) is Some ==> usable_adapters(seq![one]) == seq![adapter_of(one)->0],
        adapter_of(one) is None ==> usable_adapters(seq![one]).len() == 0,
    decreases back.len(),
{
    assert(seq![one].drop_last() =~= Seq::<RawAdapter>::empty());
    assert(usable_adapters(Seq::<RawAdapter>::empty()) =~= Seq::<AdapterView>::empty());
    if let Some(adapter) = adapter_of(one) {
        assert(usable_adapters(seq![one]) =~= seq![adapter]);
    }
    if back.len() == 0 {
        assert(front + back =~= front);
        assert(usable_adapters(front) + usable_adapters(back) =~= usable_adapters(front));
    } else {
        law_usable_adapters_are_kept(front, back.drop_last(), one);
        assert((front + back).drop_last() =~= front + back.drop_last());
        assert((front + back).last() == back.last());
        assert(usable_adapters(front + back) =~= usable_adapters(front) + usable_adapters(back));
    }
}

/// An adapter is looked for by its name, a blank and its description.
pub proof fn law_what_is_searched_for_words(name: Seq<char>, description: Seq<char>)
    ensures
        haystack(name, description).len() == name.len() + 1 + description.len(),
        haystack(name, description).take(name.len() as int) == name,
        haystack(name, description)[name.len() as int] == ' ',
        haystack(name, description).skip(name.len() as int + 1) == description,
{
    reveal_strlit(" ");
    assert(haystack(name, description).take(name.len() as int) =~= name);
    assert(haystack(name, description).skip(name.len() as int + 1) =~= description);
}

/// A text that holds one of the words anywhere names a virtual adapter, and no other text does.
pub proof fn law_the_words_of_virtual_adapters(lowered: Seq<char>)
    ensures
        names_virtual(lowered) <==> {
            ||| text::holds(lowered, "hyper-v"@)
            ||| text::holds(lowered, "vethernet"@)
            ||| text::holds(lowered, "vmware"@)
            ||| text::holds(lowered, "virtualbox"@)
            ||| text::holds(lowered, "vbox"@)
            ||| text::holds(lowered, "wsl"@)
            ||| text::holds(lowered, "loopback"@)
            ||| text::holds(lowered, "tap-"@)
            ||| text::holds(lowered, "tap "@)
            ||| text::holds(lowered, "tun"@)
            ||| text::holds(lowered, "vpn"@)
            ||| text::holds(lowered, "bluetooth"@)
            ||| text::holds(lowered, "npcap"@)
            ||| text::holds(lowered, "winpcap"@)
            ||| text::holds(lowered, "tailscale"@)
            ||| text::holds(lowered, "zerotier"@)
            ||| text::holds(lowered, "wan miniport"@)
            ||| text::holds(lowered, "wi-fi direct"@)
            ||| text::holds(lowered, "wifi direct"@)
            ||| text::holds(lowered, "teredo"@)
            ||| text::holds(lowered, "isatap"@)
            ||| text::holds(lowered, "docker"@)
            ||| text::holds(lowered, "forticlient"@)
            ||| text::holds(lowered, "wireguard"@)
        },
{
    let words = virtual_keywords();
    assert(words.len() == 24);
    assert(words[0] == "hyper-v"@ && words[1] == "vethernet"@ && words[2] == "vmware"@);
    assert(words[3] == "virtualbox"@ && words[4] == "vbox"@ && words[5] == "wsl"@);
    assert(words[6] == "loopback"@ && words[7] == "tap-"@ && words[8] == "tap "@);
    assert(words[9] == "tun"@ && words[10] == "vpn"@ && words[11] == "bluetooth"@);
    assert(words[12] == "npcap"@ && words[13] == "winpcap"@ && words[14] == "tailscale"@);
    assert(words[15] == "zerotier"@ && words[16] == "wan miniport"@);
    assert(words[17] == "wi-fi direct"@ && words[18] == "wifi direct"@ && words[19] == "teredo"@);
    assert(words[20] == "isatap"@ && words[21] == "docker"@ && words[22] == "forticlient"@);
    assert(words[23] == "wireguard"@);
}

/// An adapter that no other outscores, and that every one before it scores less than, is the best;
/// so is the only one there is.
pub proof fn law_what_makes_an_adapter_the_best(
    adapters: Seq<AdapterInfo>,
    route: Option<u32>,
    i: int,
    one: AdapterInfo,
)
    requires
        0 <= i < adapters.len(),
        forall|j: int|
            0 <= j < adapters.len() ==> score_of(#[trigger] adapters[j]@, route) <= score_of(
                adapters[i]@,
                route,
            ),
        forall|j: int|
            0 <= j < i ==> score_of(#[trigger] adapters[j]@, route) != score_of(
                adapters[i]@,
                route,
            ),
    ensures
        is_best(adapters, route, i),
        is_best(seq![one], route, 0),
{
}

/// Two reports are of the same adapter where their number, their hardware address and their name
/// agree; the rest may have changed.
pub proof fn law_what_makes_adapters_the_same(one: AdapterView, other: AdapterView)
    ensures
        same_adapter(one, other) <==> (one.interface_index == other.interface_index && one.mac
            == other.mac && one.friendly_name == other.friendly_name),
        same_adapter(
            one,
            (AdapterView {
                interface_index: one.interface_index,
                mac: one.mac,
                friendly_name: one.friendly_name,
                ..other
            }),
        ),
{
}

} // verus!
