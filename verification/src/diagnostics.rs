//! What a health check measures and how it is told.

use vstd::prelude::*;

use crate::adapter::{self, AdapterInfo};
use crate::event_log::{self, LocalTime};
use crate::net::{self, IpAddr, Ipv4Addr};
use crate::text;

verus! {

/// Which half of a dual stack a probe exercises.
#[derive(Debug, Clone, Copy, PartialEq, Eq, Structural)]
pub enum Family {
    V4,
    V6,
}

/// The host that the IPv4 probe resolves. Both hosts are domestic names with addresses of both
/// families: a health check has to ask a target that is supposed to answer from here.
pub const PUBLIC_V4_HOST: &'static str = "www.baidu.com";

/// The host that the IPv6 probe resolves.
pub const PUBLIC_V6_HOST: &'static str = "www.taobao.com";

/// The port that a probe connects to.
pub const PROBE_PORT: u16 = 443;

/// How long a probe waits for a connection.
pub const PROBE_TIMEOUT_MS: u64 = 3000;

/// What came of a connection attempt.
#[derive(Debug, Clone, PartialEq, Eq)]
pub enum Attempt {
    Connected { elapsed_ms: u64 },
    /// The name of the failure.
    Failed(String),
}

/// What came of an echo request.
#[derive(Debug, Clone, PartialEq, Eq)]
pub enum Echo {
    Answered,
    Silent,
    /// The request could not be made, for the reason given.
    NotMade(String),
}

/// What a public probe does once the name is resolved.
#[derive(Debug, Clone, PartialEq, Eq)]
pub enum Probe {
    /// Connect to the address with this number.
    Connect(usize),
    /// Nothing is left to measure.
    Finished(String),
}

/// Whether an address is of a family.
pub open spec fn is_of(family: Family, address: IpAddr) -> bool {
    match address {
        IpAddr::V4(_) => family is V4,
        IpAddr::V6(_) => family is V6,
    }
}

/// Where the first address of a family stands; the length where there is none.
pub open spec fn first_of(family: Family, addresses: Seq<IpAddr>) -> nat
    decreases addresses.len(),
{
    if addresses.len() == 0 || is_of(family, addresses[0]) {
        0
    } else {
        1 + first_of(family, addresses.skip(1))
    }
}

/// What a connection attempt tells the user. The address is part of it: for a host of both
/// families it is the only sign of which path ran.
pub open spec fn attempt_text(address: IpAddr, attempt: Attempt) -> Seq<char> {
    match attempt {
        Attempt::Connected { elapsed_ms } => "可达 · "@ + net::ip_text(address) + " · "@
            + text::decimal(elapsed_ms as nat) + " ms"@,
        Attempt::Failed(kind) => "未连通 · "@ + net::ip_text(address) + " · "@ + kind@,
    }
}

/// How many routable IPv6 addresses adapters hold, as far as that can be counted.
pub open spec fn global_total(adapters: Seq<AdapterInfo>) -> nat {
    let total = adapter::routable_total(adapters);
    if total <= usize::MAX {
        total
    } else {
        usize::MAX as nat
    }
}

/// How this machine's own IPv6 addresses look.
pub open spec fn ipv6_state(adapters: Seq<AdapterInfo>) -> Seq<char> {
    let global = global_total(adapters);
    if global > 0 {
        "本机有 "@ + text::decimal(global) + " 个全局 IPv6 地址"@
    } else if exists|i: int|
        0 <= i < adapters.len() && (#[trigger] adapters[i]).details.ipv6@.len() > 0 {
        "本机只有链路本地 IPv6 地址"@
    } else {
        "本机没有 IPv6 地址"@
    }
}

/// What a public probe tells the user: a failed IPv6 attempt is told with the state of this
/// machine, because a blocked path and a missing address are different faults.
pub open spec fn probe_text(
    family: Family,
    address: IpAddr,
    attempt: Attempt,
    adapters: Seq<AdapterInfo>,
) -> Seq<char> {
    if family is V6 && attempt is Failed {
        attempt_text(address, attempt) + " ｜ "@ + ipv6_state(adapters)
    } else {
        attempt_text(address, attempt)
    }
}

/// What is said of a host without an address of a family.
pub open spec fn no_record_text(family: Family) -> Seq<char> {
    match family {
        Family::V4 => "该域名没有 IPv4 记录"@,
        Family::V6 => "该域名没有 IPv6 记录"@,
    }
}

/// The host that a probe resolves.
pub fn probe_host(family: Family) -> (host: &'static str)
    ensures
        host@ == (match family {
            Family::V4 => PUBLIC_V4_HOST@,
            Family::V6 => PUBLIC_V6_HOST@,
        }),
{
    match family {
        Family::V4 => PUBLIC_V4_HOST,
        Family::V6 => PUBLIC_V6_HOST,
    }
}

/// What a connection attempt tells the user.
pub fn tcp_probe(address: IpAddr, attempt: &Attempt) -> (shown: String)
    ensures
        shown@ == attempt_text(address, *attempt),
{
    match attempt {
        Attempt::Connected { elapsed_ms } => {
            let mut shown = "可达 · ".to_string();
            shown.append(&net::ip_string(address));
            shown.append(" · ");
            shown.append(&text::decimal_text(*elapsed_ms));
            shown.append(" ms");
            shown
        },
        Attempt::Failed(kind) => {
            let mut shown = "未连通 · ".to_string();
            shown.append(&net::ip_string(address));
            shown.append(" · ");
            shown.append(kind);
            shown
        },
    }
}

fn matches_family(family: Family, address: IpAddr) -> (yes: bool)
    ensures
        yes == is_of(family, address),
{
    match address {
        IpAddr::V4(_) => matches!(family, Family::V4),
        IpAddr::V6(_) => matches!(family, Family::V6),
    }
}

/// Which address a public probe connects to, given what the name resolved to or the name of the
/// failure to resolve it.
pub fn internet_probe(family: Family, resolved: Result<&[IpAddr], &str>) -> (probe: Probe)
    ensures
        match resolved {
            Err(kind) => probe matches Probe::Finished(shown) && shown@ == "域名解析失败 · "@
                + kind@,
            Ok(addresses) => {
                let first = first_of(family, addresses@);
                if first < addresses@.len() {
                    probe == Probe::Connect(first as usize)
                } else {
                    probe matches Probe::Finished(shown) && shown@ == no_record_text(family)
                }
            },
        },
{
    let addresses = match resolved {
        Ok(addresses) => addresses,
        Err(kind) => {
            let mut shown = "域名解析失败 · ".to_string();
            shown.append(kind);
            return Probe::Finished(shown);
        },
    };
    let mut i: usize = 0;
    assert(addresses@.skip(0) =~= addresses@);
    while i < addresses.len()
        invariant
            i <= addresses@.len(),
            first_of(family, addresses@) == i + first_of(family, addresses@.skip(i as int)),
            resolved == Ok::<&[IpAddr], &str>(addresses),
        decreases addresses@.len() - i,
    {
        assert(addresses@.skip(i as int)[0] == addresses@[i as int]);
        if matches_family(family, addresses[i]) {
            return Probe::Connect(i);
        }
        assert(addresses@.skip(i as int).skip(1) =~= addresses@.skip(i + 1));
        i += 1;
    }
    Probe::Finished(
        match family {
            Family::V4 => "该域名没有 IPv4 记录".to_string(),
            Family::V6 => "该域名没有 IPv6 记录".to_string(),
        },
    )
}

/// Describes this machine's own IPv6 addresses, to go with a failed probe.
pub fn local_ipv6_state(adapters: &[AdapterInfo]) -> (shown: String)
    ensures
        shown@ == ipv6_state(adapters@),
{
    let global: usize = adapter::global_ipv6_count(adapters);
    if global > 0 {
        let mut shown = "本机有 ".to_string();
        shown.append(&text::decimal_text(global as u64));
        shown.append(" 个全局 IPv6 地址");
        return shown;
    }
    let mut i: usize = 0;
    while i < adapters.len()
        invariant
            i <= adapters@.len(),
            global_total(adapters@) == 0,
            forall|j: int| 0 <= j < i ==> (#[trigger] adapters@[j]).details.ipv6@.len() == 0,
        decreases adapters@.len() - i,
    {
        if adapters[i].details.ipv6.len() > 0 {
            assert(adapters@[i as int].details.ipv6@.len() > 0);
            return "本机只有链路本地 IPv6 地址".to_string();
        }
        i += 1;
    }
    "本机没有 IPv6 地址".to_string()
}

/// What a public probe tells the user once the attempt is over.
pub fn internet_result(
    family: Family,
    address: IpAddr,
    attempt: &Attempt,
    adapters: &[AdapterInfo],
) -> (shown: String)
    ensures
        shown@ == probe_text(family, address, *attempt, adapters@),
{
    let mut shown = tcp_probe(address, attempt);
    if matches!(family, Family::V6) && matches!(attempt, Attempt::Failed(_)) {
        shown.append(" ｜ ");
        shown.append(&local_ipv6_state(adapters));
    }
    shown
}

/// The arguments of one echo request to a server.
pub fn campus_arguments(server: Ipv4Addr) -> (arguments: Vec<String>)
    ensures
        text::string_views(arguments@) == seq![
            "-4"@,
            "-n"@,
            "1"@,
            "-w"@,
            "2000"@,
            net::ipv4_text(server),
        ],
{
    let mut arguments: Vec<String> = Vec::new();
    arguments.push("-4".to_string());
    arguments.push("-n".to_string());
    arguments.push("1".to_string());
    arguments.push("-w".to_string());
    arguments.push("2000".to_string());
    arguments.push(net::ipv4_string(server));
    assert(text::string_views(arguments@) =~= seq![
        "-4"@,
        "-n"@,
        "1"@,
        "-w"@,
        "2000"@,
        net::ipv4_text(server),
    ]);
    arguments
}

/// What an echo request tells the user. Silence says nothing about authentication.
pub fn campus_probe(echo: &Echo) -> (shown: String)
    ensures
        shown@ == (match *echo {
            Echo::Answered => "ICMP 可达"@,
            Echo::Silent => "ICMP 未响应（不代表认证不可用）"@,
            Echo::NotMade(reason) => "测试失败："@ + reason@,
        }),
{
    match echo {
        Echo::Answered => "ICMP 可达".to_string(),
        Echo::Silent => "ICMP 未响应（不代表认证不可用）".to_string(),
        Echo::NotMade(reason) => {
            let mut shown = "测试失败：".to_string();
            shown.append(reason);
            shown
        },
    }
}

/// The name of an exported report.
pub fn export_name(now: LocalTime) -> (name: String)
    ensures
        name@ == "drcom-诊断-"@ + event_log::compact_stamp(now) + ".txt"@,
{
    let mut name = "drcom-诊断-".to_string();
    name.append(&event_log::compact_timestamp(now));
    name.append(".txt");
    name
}

/// The bytes of an exported report, behind the mark by which editors recognise UTF-8.
pub fn export(report: &str) -> (bytes: Vec<u8>)
    ensures
        bytes@ == seq![0xefu8, 0xbb, 0xbf] + vstd::utf8::encode_utf8(report@),
{
    let mut bytes: Vec<u8> = Vec::new();
    bytes.push(0xef);
    bytes.push(0xbb);
    bytes.push(0xbf);
    crate::bytes::append(&mut bytes, report.as_bytes());
    assert(bytes@ =~= seq![0xefu8, 0xbb, 0xbf] + vstd::utf8::encode_utf8(report@));
    bytes
}

/// Whether a user can read a result off a text: it has a separator, or says that there is no
/// record.
pub open spec fn readable(shown: Seq<char>) -> bool {
    shown.contains('·') || text::holds(shown, "记录"@)
}

proof fn lemma_separator(head: Seq<char>, rest: Seq<char>, at: int)
    requires
        0 <= at < head.len(),
        head[at] == '·',
    ensures
        (head + rest).contains('·'),
{
    assert((head + rest)[at] == '·');
}

/// Every way a public probe can go ends in a text that a user can read.
pub proof fn law_every_probe_is_readable(
    family: Family,
    address: IpAddr,
    attempt: Attempt,
    adapters: Seq<AdapterInfo>,
    kind: Seq<char>,
)
    ensures
        readable(probe_text(family, address, attempt, adapters)),
        readable("域名解析失败 · "@ + kind),
        readable(no_record_text(family)),
{
    reveal_strlit("可达 · ");
    reveal_strlit("未连通 · ");
    reveal_strlit("域名解析失败 · ");
    reveal_strlit("该域名没有 IPv4 记录");
    reveal_strlit("该域名没有 IPv6 记录");
    reveal_strlit("记录");
    lemma_separator("域名解析失败 · "@, kind, 7);
    assert("该域名没有 IPv4 记录"@.subrange(11, 13) =~= "记录"@);
    assert(text::occurs_at("该域名没有 IPv4 记录"@, "记录"@, 11));
    assert("该域名没有 IPv6 记录"@.subrange(11, 13) =~= "记录"@);
    assert(text::occurs_at("该域名没有 IPv6 记录"@, "记录"@, 11));
    let shown = attempt_text(address, attempt);
    match attempt {
        Attempt::Connected { elapsed_ms } => {
            let rest = net::ip_text(address) + " · "@ + text::decimal(elapsed_ms as nat) + " ms"@;
            assert(shown =~= "可达 · "@ + rest);
            lemma_separator("可达 · "@, rest, 3);
        },
        Attempt::Failed(name) => {
            let rest = net::ip_text(address) + " · "@ + name@;
            assert(shown =~= "未连通 · "@ + rest);
            lemma_separator("未连通 · "@, rest, 4);
        },
    }
    let at = choose|i: int| 0 <= i < shown.len() && shown[i] == '·';
    let told = " ｜ "@ + ipv6_state(adapters);
    lemma_separator(shown, told, at);
    assert(shown + " ｜ "@ + ipv6_state(adapters) =~= shown + told);
}

/// The first address of a family is tried, whatever addresses of the other stand before it.
pub proof fn law_the_first_address_of_a_family_is_tried(
    family: Family,
    addresses: Seq<IpAddr>,
)
    ensures
        first_of(family, addresses) <= addresses.len(),
        forall|i: int|
            0 <= i < first_of(family, addresses) ==> (family is V4 <==> #[trigger] addresses[i]
                is V6),
        first_of(family, addresses) < addresses.len() ==> (family is V4 <==> addresses[first_of(
            family,
            addresses,
        ) as int] is V4),
    decreases addresses.len(),
{
    if addresses.len() > 0 && !is_of(family, addresses[0]) {
        let rest = addresses.skip(1);
        law_the_first_address_of_a_family_is_tried(family, rest);
        assert forall|i: int| 0 <= i < first_of(family, addresses) implies (family is V4
            <==> #[trigger] addresses[i] is V6) by {
            if i > 0 {
                assert(rest[i - 1] == addresses[i]);
            }
        }
    }
}

/// A probe tells whether the address was reached, which address it was, and how long it took or
/// why it failed. A failed IPv6 probe adds how this machine stands, and no other does.
pub proof fn law_what_a_probe_tells(
    family: Family,
    address: IpAddr,
    attempt: Attempt,
    adapters: Seq<AdapterInfo>,
)
    ensures
        attempt matches Attempt::Connected { elapsed_ms } ==> probe_text(
            family,
            address,
            attempt,
            adapters,
        ) == "可达 · "@ + net::ip_text(address) + " · "@ + text::decimal(elapsed_ms as nat)
            + " ms"@,
        attempt matches Attempt::Failed(kind) ==> probe_text(family, address, attempt, adapters)
            == (if family is V4 {
            "未连通 · "@ + net::ip_text(address) + " · "@ + kind@
        } else {
            "未连通 · "@ + net::ip_text(address) + " · "@ + kind@ + " ｜ "@ + ipv6_state(adapters)
        }),
        no_record_text(Family::V4) == "该域名没有 IPv4 记录"@,
        no_record_text(Family::V6) == "该域名没有 IPv6 记录"@,
{
}

/// How a machine stands with IPv6: the number of its routable addresses where it has any, else
/// whether it has link-local ones.
pub proof fn law_how_a_machine_stands_with_ipv6(adapters: Seq<AdapterInfo>)
    requires
        adapter::routable_total(adapters) <= usize::MAX,
    ensures
        ({
            let total = adapter::routable_total(adapters);
            let none = forall|i: int|
                0 <= i < adapters.len() ==> (#[trigger] adapters[i]).details.ipv6@.len() == 0;
            &&& total >= 1 ==> ipv6_state(adapters) == "本机有 "@ + text::decimal(total)
                + " 个全局 IPv6 地址"@
            &&& total == 0 && !none ==> ipv6_state(adapters) == "本机只有链路本地 IPv6 地址"@
            &&& total == 0 && none ==> ipv6_state(adapters) == "本机没有 IPv6 地址"@
        }),
{
}

} // verus!
