//! What the window shows.

use vstd::prelude::*;

use crate::adapter::{self, AdapterInfo};
use crate::event_log::{self, LocalTime};
use crate::net::{self, IpAddr};
use crate::text;

verus! {

/// How many characters of a note the tray shows: a tooltip is clipped without a sign.
pub const TOOLTIP_LEN: usize = 48;

/// How many lines of the log a report ends with.
pub const REPORT_LINES: usize = 40;

/// The name of a machine that has none.
pub const UNNAMED_HOST: &'static str = "DRCOM-PC";

/// The state of the connection as a whole.
#[derive(Debug, Clone, Copy, PartialEq, Eq, Structural)]
pub enum ConnectionState {
    Disconnected,
    WaitingForNetwork,
    Connecting,
    Connected,
    Reconnecting,
    Disconnecting,
}

/// The word for a state.
pub open spec fn state_text(state: ConnectionState) -> Seq<char> {
    match state {
        ConnectionState::Disconnected => "未连接"@,
        ConnectionState::WaitingForNetwork => "等待网络"@,
        ConnectionState::Connecting => "连接中"@,
        ConnectionState::Connected => "已连接"@,
        ConnectionState::Reconnecting => "重连中"@,
        ConnectionState::Disconnecting => "断开中"@,
    }
}

impl ConnectionState {
    pub fn to_text(self) -> (shown: &'static str)
        ensures
            shown@ == state_text(self),
    {
        match self {
            ConnectionState::Disconnected => "未连接",
            ConnectionState::WaitingForNetwork => "等待网络",
            ConnectionState::Connecting => "连接中",
            ConnectionState::Connected => "已连接",
            ConnectionState::Reconnecting => "重连中",
            ConnectionState::Disconnecting => "断开中",
        }
    }

    /// Whether the account is online.
    pub fn online(self) -> (yes: bool)
        ensures
            yes == (self is Connected),
    {
        matches!(self, ConnectionState::Connected)
    }

    /// Whether there is anything to disconnect.
    pub fn session_active(self) -> (yes: bool)
        ensures
            yes == !(self is Disconnected),
    {
        !matches!(self, ConnectionState::Disconnected)
    }
}

/// A duration for a reader, from seconds.
pub open spec fn duration_text(seconds: nat) -> Seq<char> {
    if seconds < 60 {
        text::decimal(seconds) + " 秒"@
    } else if seconds < 3600 {
        text::decimal(seconds / 60) + " 分 "@ + text::zero_filled(
            text::decimal(seconds % 60),
            2,
        ) + " 秒"@
    } else {
        text::decimal(seconds / 3600) + " 时 "@ + text::zero_filled(
            text::decimal(seconds % 3600 / 60),
            2,
        ) + " 分"@
    }
}

/// A duration for a reader.
pub fn format_duration(seconds: u64) -> (shown: String)
    ensures
        shown@ == duration_text(seconds as nat),
{
    if seconds < 60 {
        let mut shown = text::decimal_text(seconds);
        shown.append(" 秒");
        shown
    } else if seconds < 3600 {
        let mut shown = text::decimal_text(seconds / 60);
        shown.append(" 分 ");
        shown.append(&text::padded_decimal(seconds % 60, 2));
        shown.append(" 秒");
        shown
    } else {
        let mut shown = text::decimal_text(seconds / 3600);
        shown.append(" 时 ");
        shown.append(&text::padded_decimal(seconds % 3600 / 60, 2));
        shown.append(" 分");
        shown
    }
}

/// The octet of a hardware address that counts `scale`, in the notation for readers.
pub open spec fn mac_octet(mac: u64, scale: u64) -> Seq<char> {
    text::hex_byte_upper((mac / scale % 256) as u8)
}

/// A hardware address for a reader, most significant octet first.
pub open spec fn mac_text(mac: u64) -> Seq<char> {
    mac_octet(mac, 0x100_0000_0000) + ":"@ + mac_octet(mac, 0x1_0000_0000) + ":"@ + mac_octet(
        mac,
        0x100_0000,
    ) + ":"@ + mac_octet(mac, 0x1_0000) + ":"@ + mac_octet(mac, 0x100) + ":"@ + mac_octet(mac, 1)
}

/// A hardware address for a reader: `AA:BB:CC:DD:EE:FF`. Bits above the sixth octet are left out.
pub fn format_mac(mac: u64) -> (shown: String)
    ensures
        shown@ == mac_text(mac),
{
    let mut shown = text::hex_byte_upper_text((mac / 0x100_0000_0000 % 256) as u8);
    shown.append(":");
    shown.append(&text::hex_byte_upper_text((mac / 0x1_0000_0000 % 256) as u8));
    shown.append(":");
    shown.append(&text::hex_byte_upper_text((mac / 0x100_0000 % 256) as u8));
    shown.append(":");
    shown.append(&text::hex_byte_upper_text((mac / 0x1_0000 % 256) as u8));
    shown.append(":");
    shown.append(&text::hex_byte_upper_text((mac / 0x100 % 256) as u8));
    shown.append(":");
    shown.append(&text::hex_byte_upper_text((mac % 256) as u8));
    shown
}

/// Addresses for a reader.
pub open spec fn addresses_text(addresses: Seq<IpAddr>) -> Seq<char> {
    if addresses.len() == 0 {
        "--"@
    } else {
        text::joined(net::ip_texts(addresses), ", "@)
    }
}

/// Addresses for a reader, or a sign that there are none.
pub fn addresses(values: &[IpAddr]) -> (shown: String)
    ensures
        shown@ == addresses_text(values@),
{
    if values.len() == 0 {
        "--".to_string()
    } else {
        text::join(&net::ip_strings(values), ", ")
    }
}

/// IPv6 addresses for a reader. A link-local address is not shown as one that works, and of
/// several routable ones the first stands for all.
pub open spec fn ipv6_text(addresses: Seq<IpAddr>) -> Seq<char> {
    let routable = adapter::routable(addresses);
    if addresses.len() == 0 {
        "--"@
    } else if routable.len() == 0 {
        "仅链路本地地址（无法访问 IPv6 互联网）"@
    } else if routable.len() == 1 {
        net::ip_text(routable[0])
    } else {
        net::ip_text(routable[0]) + " 等 "@ + text::decimal(routable.len()) + " 个"@
    }
}

/// Sums up an adapter's IPv6 addresses.
pub fn ipv6_display(values: &[IpAddr]) -> (shown: String)
    ensures
        shown@ == ipv6_text(values@),
{
    if values.len() == 0 {
        return "--".to_string();
    }
    let routable = adapter::routable_addresses(values);
    let count: usize = routable.len();
    if count == 0 {
        return "仅链路本地地址（无法访问 IPv6 互联网）".to_string();
    }
    let mut shown = net::ip_string(routable[0]);
    if count > 1 {
        shown.append(" 等 ");
        shown.append(&text::decimal_text(count as u64));
        shown.append(" 个");
    }
    shown
}

/// What the tray shows of a note.
pub open spec fn tooltip_of(note: Seq<char>) -> Seq<char> {
    "DrCom 校园网助手 - "@ + if note.len() <= TOOLTIP_LEN {
        note
    } else {
        note.take(TOOLTIP_LEN as int)
    }
}

/// What the tray shows of a note: its front, which has to be the useful part.
pub fn tooltip_text(note: &str) -> (shown: String)
    ensures
        shown@ == tooltip_of(note@),
{
    let chars = text::chars_of(note);
    let mut shown = "DrCom 校园网助手 - ".to_string();
    if chars.len() <= TOOLTIP_LEN {
        shown.append(note);
    } else {
        let front = vstd::slice::slice_subrange(chars.as_slice(), 0, TOOLTIP_LEN);
        assert(front@ =~= note@.take(TOOLTIP_LEN as int));
        shown.append(&text::string_of(front));
    }
    shown
}

/// What the window says about the adapter.
#[derive(Debug, Clone, PartialEq, Eq)]
pub struct AdapterPanel {
    pub name: String,
    pub ipv4: String,
    pub mac: String,
    pub gateway: String,
    pub dns: String,
    pub ipv6: String,
    /// The status line.
    pub status: String,
}

/// What is shown of an adapter.
pub fn show_network_details(found: &AdapterInfo, status: String) -> (panel: AdapterPanel)
    ensures
        panel.name@ == found.friendly_name@,
        panel.ipv4@ == net::ipv4_text(found.ipv4),
        panel.mac@ == mac_text(found.mac),
        panel.gateway@ == addresses_text(found.details.gateways@),
        panel.dns@ == addresses_text(found.details.dns@),
        panel.ipv6@ == ipv6_text(found.details.ipv6@),
        panel.status == status,
{
    AdapterPanel {
        name: found.friendly_name.clone(),
        ipv4: net::ipv4_string(found.ipv4),
        mac: format_mac(found.mac),
        gateway: addresses(&found.details.gateways),
        dns: addresses(&found.details.dns),
        ipv6: ipv6_display(&found.details.ipv6),
        status,
    }
}

/// The status line that goes with an adapter, where nothing else is to be said.
pub open spec fn adapter_status(found: Option<&AdapterInfo>, note: Option<&str>) -> Seq<char> {
    match note {
        Some(note) => note@,
        None => match found {
            Some(found) => "网卡 "@ + found.description@ + " 已就绪"@,
            None => "未检测到可用的物理有线或无线网卡，已排除虚拟网卡"@,
        },
    }
}

/// What is shown of the adapter that was chosen, or of the lack of one.
pub fn refresh_adapter(found: Option<&AdapterInfo>, note: Option<&str>) -> (panel: AdapterPanel)
    ensures
        panel.status@ == adapter_status(found, note),
        match found {
            Some(found) => {
                &&& panel.name@ == found.friendly_name@
                &&& panel.ipv4@ == net::ipv4_text(found.ipv4)
                &&& panel.mac@ == mac_text(found.mac)
                &&& panel.gateway@ == addresses_text(found.details.gateways@)
                &&& panel.dns@ == addresses_text(found.details.dns@)
                &&& panel.ipv6@ == ipv6_text(found.details.ipv6@)
            },
            None => {
                &&& panel.name@ == "未检测到物理网卡"@
                &&& panel.ipv4@ == "--"@
                &&& panel.mac@ == "--"@
                &&& panel.gateway@ == "--"@
                &&& panel.dns@ == "--"@
                &&& panel.ipv6@ == "--"@
            },
        },
{
    let status = match note {
        Some(note) => note.to_string(),
        None => match found {
            Some(found) => {
                let mut status = "网卡 ".to_string();
                status.append(&found.description);
                status.append(" 已就绪");
                status
            },
            None => "未检测到可用的物理有线或无线网卡，已排除虚拟网卡".to_string(),
        },
    };
    match found {
        Some(found) => show_network_details(found, status),
        None => AdapterPanel {
            name: "未检测到物理网卡".to_string(),
            ipv4: "--".to_string(),
            mac: "--".to_string(),
            gateway: "--".to_string(),
            dns: "--".to_string(),
            ipv6: "--".to_string(),
            status,
        },
    }
}

/// What the network editor starts with.
#[derive(Debug, Clone, PartialEq, Eq)]
pub struct EditorFields {
    pub adapter_name: String,
    pub ip: String,
    pub mask: String,
    pub gateway: String,
    pub dns: String,
}

/// What the network editor starts with for an adapter.
pub fn editor_fields(found: &AdapterInfo) -> (fields: EditorFields)
    ensures
        fields.adapter_name@ == found.friendly_name@,
        fields.ip@ == net::ipv4_text(found.ipv4),
        fields.mask@ == (match found.details.subnet_mask {
            Some(mask) => net::ipv4_text(mask),
            None => Seq::<char>::empty(),
        }),
        fields.gateway@ == net::first_ipv4_text(found.details.gateways@),
        fields.dns@ == net::first_ipv4_text(found.details.dns@),
{
    EditorFields {
        adapter_name: found.friendly_name.clone(),
        ip: net::ipv4_string(found.ipv4),
        mask: match found.details.subnet_mask {
            Some(mask) => net::ipv4_string(mask),
            None => String::new(),
        },
        gateway: net::first_ipv4_string(&found.details.gateways),
        dns: net::first_ipv4_string(&found.details.dns),
    }
}

/// What a report quotes from the window. Neither the account nor the password is among it.
#[derive(Debug, Clone, PartialEq, Eq)]
pub struct ReportFields {
    pub connection_state: String,
    pub adapter_name: String,
    pub ipv4: String,
    pub mac: String,
    pub gateway: String,
    pub dns: String,
    pub ipv6: String,
    pub duration: String,
    pub campus: String,
    pub internet_v4: String,
    pub internet_v6: String,
    pub minimize_to_tray: bool,
}

/// The report that a user hands over.
pub open spec fn report_of(
    version: Seq<char>,
    now: LocalTime,
    fields: ReportFields,
    config_path: Option<Seq<char>>,
    recent: Seq<char>,
) -> Seq<char> {
    "DrCom Rust "@ + version + "\n导出时间："@ + event_log::stamp(now) + "\n状态："@
        + fields.connection_state@ + "\n网卡："@ + fields.adapter_name@ + "\nIPv4："@
        + fields.ipv4@ + "\nMAC："@ + fields.mac@ + "\n网关："@ + fields.gateway@ + "\nDNS："@
        + fields.dns@ + "\nIPv6："@ + fields.ipv6@ + "\n在线时长："@ + fields.duration@
        + "\n校内："@ + fields.campus@ + "\n公网 IPv4："@ + fields.internet_v4@
        + "\n公网 IPv6："@ + fields.internet_v6@ + "\n关闭窗口最小化到托盘："@ + (
    if fields.minimize_to_tray {
        "是"@
    } else {
        "否"@
    }) + "\n探测使用系统路由，不等同于认证状态。\n\n认证服务器："@ + (match config_path {
        Some(path) => path,
        None => "无配置文件（使用内置认证服务器）"@,
    }) + "\n最近日志：\n"@ + (if recent.len() == 0 {
        "（本次运行还没有日志）"@
    } else {
        recent
    })
}

/// The report that a user hands over, given the end of the log.
pub fn diagnostics_report(
    version: &str,
    now: LocalTime,
    fields: &ReportFields,
    config_path: Option<&str>,
    recent: &str,
) -> (report: String)
    ensures
        report@ == report_of(
            version@,
            now,
            *fields,
            match config_path {
                Some(path) => Some(path@),
                None => None,
            },
            recent@,
        ),
{
    let mut report = "DrCom Rust ".to_string();
    report.append(version);
    report.append("\n导出时间：");
    report.append(&event_log::timestamp(now));
    report.append("\n状态：");
    report.append(&fields.connection_state);
    report.append("\n网卡：");
    report.append(&fields.adapter_name);
    report.append("\nIPv4：");
    report.append(&fields.ipv4);
    report.append("\nMAC：");
    report.append(&fields.mac);
    report.append("\n网关：");
    report.append(&fields.gateway);
    report.append("\nDNS：");
    report.append(&fields.dns);
    report.append("\nIPv6：");
    report.append(&fields.ipv6);
    report.append("\n在线时长：");
    report.append(&fields.duration);
    report.append("\n校内：");
    report.append(&fields.campus);
    report.append("\n公网 IPv4：");
    report.append(&fields.internet_v4);
    report.append("\n公网 IPv6：");
    report.append(&fields.internet_v6);
    report.append("\n关闭窗口最小化到托盘：");
    report.append(
        if fields.minimize_to_tray {
            "是"
        } else {
            "否"
        },
    );
    report.append("\n探测使用系统路由，不等同于认证状态。\n\n认证服务器：");
    report.append(
        match config_path {
            Some(path) => path,
            None => "无配置文件（使用内置认证服务器）",
        },
    );
    report.append("\n最近日志：\n");
    if recent.is_empty() {
        report.append("（本次运行还没有日志）");
    } else {
        report.append(recent);
    }
    report
}

/// The name of this machine, given what the environment says.
pub fn host_name(computer_name: Option<&str>, fallback: Option<&str>) -> (name: String)
    ensures
        name@ == (match computer_name {
            Some(name) => name@,
            None => match fallback {
                Some(name) => name@,
                None => UNNAMED_HOST@,
            },
        }),
{
    match computer_name {
        Some(name) => name.to_string(),
        None => match fallback {
            Some(name) => name.to_string(),
            None => UNNAMED_HOST.to_string(),
        },
    }
}

/// What is said of a configuration file that has no effect.
pub fn load_complaint(path: &str, error: &str) -> (complaint: String)
    ensures
        complaint@ == "配置文件 "@ + path@ + " 未生效："@ + error@,
{
    let mut complaint = "配置文件 ".to_string();
    complaint.append(path);
    complaint.append(" 未生效：");
    complaint.append(error);
    complaint
}

/// What the log says of a start.
pub fn startup_record(version: &str, config_path: Option<&str>) -> (line: String)
    ensures
        line@ == "启动 DrCom Rust "@ + version@ + "，配置文件："@ + (match config_path {
            Some(path) => path@,
            None => "无（使用内置认证服务器）"@,
        }),
{
    let mut line = "启动 DrCom Rust ".to_string();
    line.append(version);
    line.append("，配置文件：");
    line.append(
        match config_path {
            Some(path) => path,
            None => "无（使用内置认证服务器）",
        },
    );
    line
}

/// An account that is online has a session to disconnect.
pub proof fn law_online_means_active(state: ConnectionState)
    ensures
        state is Connected ==> !(state is Disconnected),
        forall|other: ConnectionState| state_text(state) == state_text(other) ==> state == other,
{
    reveal_strlit("未连接");
    reveal_strlit("等待网络");
    reveal_strlit("连接中");
    reveal_strlit("已连接");
    reveal_strlit("重连中");
    reveal_strlit("断开中");
    assert forall|other: ConnectionState| state_text(state) == state_text(other) implies state
        == other by {
        let a = state_text(state);
        let b = state_text(other);
        assert(a.len() == b.len());
        assert(a[0] == b[0] && a[1] == b[1] && a[2] == b[2]);
    }
}

/// Where IPv6 reaches nothing, what is shown is never an address.
pub proof fn law_link_local_never_looks_like_an_address(addresses: Seq<IpAddr>)
    requires
        addresses.len() > 0,
        forall|i: int| 0 <= i < addresses.len() ==> adapter::link_local(#[trigger] addresses[i]),
    ensures
        ipv6_text(addresses) == "仅链路本地地址（无法访问 IPv6 互联网）"@,
{
    lemma_none_routable(addresses);
}

proof fn lemma_none_routable(addresses: Seq<IpAddr>)
    requires
        forall|i: int| 0 <= i < addresses.len() ==> adapter::link_local(#[trigger] addresses[i]),
    ensures
        adapter::routable(addresses).len() == 0,
    decreases addresses.len(),
{
    if addresses.len() > 0 {
        let front = addresses.drop_last();
        assert forall|i: int| 0 <= i < front.len() implies adapter::link_local(
            #[trigger] front[i],
        ) by {
            assert(front[i] == addresses[i]);
        }
        lemma_none_routable(front);
        assert(adapter::link_local(addresses[addresses.len() - 1]));
    }
}

/// The words for the states.
pub proof fn law_the_words_for_the_states()
    ensures
        state_text(ConnectionState::Disconnected) == "未连接"@,
        state_text(ConnectionState::WaitingForNetwork) == "等待网络"@,
        state_text(ConnectionState::Connecting) == "连接中"@,
        state_text(ConnectionState::Connected) == "已连接"@,
        state_text(ConnectionState::Reconnecting) == "重连中"@,
        state_text(ConnectionState::Disconnecting) == "断开中"@,
{
}

/// A duration is shown by its two largest units: seconds alone below a minute, minutes and seconds
/// below an hour, hours and minutes from then on. The smaller of two has two digits.
pub proof fn law_how_a_duration_is_shown(hours: nat, minutes: nat, seconds: nat)
    requires
        minutes < 60,
        seconds < 60,
    ensures
        ({
            let shown = duration_text(3600 * hours + 60 * minutes + seconds);
            &&& hours == 0 && minutes == 0 ==> shown == text::decimal(seconds) + " 秒"@
            &&& hours == 0 && minutes > 0 ==> shown == text::decimal(minutes) + " 分 "@
                + text::zero_filled(text::decimal(seconds), 2) + " 秒"@
            &&& hours > 0 ==> shown == text::decimal(hours) + " 时 "@ + text::zero_filled(
                text::decimal(minutes),
                2,
            ) + " 分"@
        }),
{
    let total = 3600 * hours + 60 * minutes + seconds;
    assert(total / 3600 == hours);
    assert(total % 3600 == 60 * minutes + seconds);
    assert(total % 3600 / 60 == minutes);
    if hours == 0 {
        assert(total / 60 == minutes);
        assert(total % 60 == seconds);
    }
}

/// A hardware address is shown as its six octets in hexadecimal, the most significant one first.
pub proof fn law_how_a_hardware_address_is_shown(
    o1: u8,
    o2: u8,
    o3: u8,
    o4: u8,
    o5: u8,
    o6: u8,
    mac: u64,
)
    requires
        mac == o1 * 0x100_0000_0000 + o2 * 0x1_0000_0000 + o3 * 0x100_0000 + o4 * 0x1_0000 + o5
            * 0x100 + o6,
    ensures
        mac_text(mac) == text::hex_byte_upper(o1) + ":"@ + text::hex_byte_upper(o2) + ":"@
            + text::hex_byte_upper(o3) + ":"@ + text::hex_byte_upper(o4) + ":"@
            + text::hex_byte_upper(o5) + ":"@ + text::hex_byte_upper(o6),
{
    let low = o4 * 0x1_0000 + o5 * 0x100 + o6;
    let high = o1 * 0x1_0000 + o2 * 0x100 + o3;
    assert(0 <= low < 0x100_0000);
    assert(mac == high * 0x100_0000 + low);
    assert(mac / 0x100_0000 == high);
    assert(mac / 0x100_0000_0000 == o1 as int);
    assert(mac / 0x1_0000_0000 == o1 * 0x100 + o2);
    assert(mac / 0x1_0000 == high * 0x100 + o4);
    assert(mac / 0x100 == high * 0x1_0000 + o4 * 0x100 + o5);
    assert(mac / 0x1_0000_0000 % 256 == o2 as int);
    assert(mac / 0x100_0000 % 256 == o3 as int);
    assert(mac / 0x1_0000 % 256 == o4 as int);
    assert(mac / 0x100 % 256 == o5 as int);
    assert(mac % 256 == o6 as int);
}

/// Addresses are shown with a comma and a blank between two, and none as two dashes. Of IPv6
/// addresses the first routable one is shown, and behind it how many there are, from two on.
pub proof fn law_how_addresses_are_shown(addresses: Seq<IpAddr>)
    ensures
        addresses.len() == 0 ==> addresses_text(addresses) == "--"@ && ipv6_text(addresses) == "--"@,
        addresses.len() > 0 ==> addresses_text(addresses) == text::joined(
            net::ip_texts(addresses),
            ", "@,
        ),
        ({
            let routable = adapter::routable(addresses);
            &&& addresses.len() > 0 && routable.len() == 0 ==> ipv6_text(addresses)
                == "仅链路本地地址（无法访问 IPv6 互联网）"@
            &&& routable.len() == 1 ==> ipv6_text(addresses) == net::ip_text(routable[0])
            &&& routable.len() >= 2 ==> ipv6_text(addresses) == net::ip_text(routable[0]) + " 等 "@
                + text::decimal(routable.len()) + " 个"@
        }),
{
    if addresses.len() == 0 {
        assert(adapter::routable(addresses).len() == 0);
    }
}

/// The tray shows the name of the program and at most the first 48 characters of a note, unchanged.
pub proof fn law_what_the_tray_shows(note: Seq<char>)
    ensures
        ({
            let front = "DrCom 校园网助手 - "@;
            let shown = tooltip_of(note);
            &&& shown.take(front.len() as int) == front
            &&& note.len() <= 48 ==> shown.skip(front.len() as int) == note
            &&& note.len() > 48 ==> shown.skip(front.len() as int) == note.take(48)
        }),
{
    let front = "DrCom 校园网助手 - "@;
    let shown = tooltip_of(note);
    assert(shown.take(front.len() as int) =~= front);
    if note.len() <= 48 {
        assert(shown.skip(front.len() as int) =~= note);
    } else {
        assert(shown.skip(front.len() as int) =~= note.take(48));
    }
}

/// The status line is the note where there is one, else it speaks of the adapter or of its lack.
pub proof fn law_what_the_status_line_says(found: Option<&AdapterInfo>, note: Option<&str>)
    ensures
        note is Some ==> adapter_status(found, note) == note->0@,
        note is None && found is Some ==> adapter_status(found, note) == "网卡 "@
            + found->0.description@ + " 已就绪"@,
        note is None && found is None ==> adapter_status(found, note)
            == "未检测到可用的物理有线或无线网卡，已排除虚拟网卡"@,
{
}

/// Whether words begin with others.
pub open spec fn begins(words: Seq<char>, front: Seq<char>) -> bool {
    front.len() <= words.len() && words.take(front.len() as int) == front
}

proof fn lemma_longer(words: Seq<char>, more: Seq<char>)
    ensures
        forall|part: Seq<char>| #[trigger] text::holds(words, part) ==> text::holds(
            words + more,
            part,
        ),
        forall|front: Seq<char>| #[trigger] begins(words, front) ==> begins(words + more, front),
{
    assert forall|front: Seq<char>| #[trigger] begins(words, front) implies begins(
        words + more,
        front,
    ) by {
        assert((words + more).take(front.len() as int) =~= words.take(front.len() as int));
    }
    assert forall|part: Seq<char>| #[trigger] text::holds(words, part) implies text::holds(
        words + more,
        part,
    ) by {
        let i = choose|i: int| text::occurs_at(words, part, i);
        assert((words + more).subrange(i, i + part.len()) =~= words.subrange(i, i + part.len()));
        assert(text::occurs_at(words + more, part, i));
    }
}

proof fn lemma_row(front: Seq<char>, name: Seq<char>, value: Seq<char>, next: Seq<char>)
    ensures
        text::holds(front + name + value + next, name + value + next),
{
    let row = name + value + next;
    let whole = front + name + value + next;
    let at = front.len() as int;
    assert(whole =~= front + row);
    assert((front + row).subrange(at, at + row.len()) =~= row);
    assert(text::occurs_at(whole, row, at));
}

/// A report begins with the version, and each row of it has its own value behind its own name.
pub proof fn law_the_rows_of_a_report(
    version: Seq<char>,
    now: LocalTime,
    fields: ReportFields,
    config_path: Option<Seq<char>>,
    recent: Seq<char>,
)
    ensures
        ({
            let report = report_of(version, now, fields, config_path, recent);
            &&& begins(report, "DrCom Rust "@ + version)
            &&& text::holds(report, "\n导出时间："@ + event_log::stamp(now) + "\n状态："@)
            &&& text::holds(report, "\n状态："@ + fields.connection_state@ + "\n网卡："@)
            &&& text::holds(report, "\n网卡："@ + fields.adapter_name@ + "\nIPv4："@)
            &&& text::holds(report, "\nIPv4："@ + fields.ipv4@ + "\nMAC："@)
            &&& text::holds(report, "\nMAC："@ + fields.mac@ + "\n网关："@)
            &&& text::holds(report, "\n网关："@ + fields.gateway@ + "\nDNS："@)
            &&& text::holds(report, "\nDNS："@ + fields.dns@ + "\nIPv6："@)
            &&& text::holds(report, "\nIPv6："@ + fields.ipv6@ + "\n在线时长："@)
            &&& text::holds(report, "\n在线时长："@ + fields.duration@ + "\n校内："@)
            &&& text::holds(report, "\n校内："@ + fields.campus@ + "\n公网 IPv4："@)
            &&& text::holds(report, "\n公网 IPv4："@ + fields.internet_v4@ + "\n公网 IPv6："@)
            &&& text::holds(report, "\n公网 IPv6："@ + fields.internet_v6@ + "\n关闭窗口最小化到托盘："@)
            &&& fields.minimize_to_tray ==> text::holds(
                report,
                "\n关闭窗口最小化到托盘："@ + "是"@
                    + "\n探测使用系统路由，不等同于认证状态。\n\n认证服务器："@,
            )
            &&& !fields.minimize_to_tray ==> text::holds(
                report,
                "\n关闭窗口最小化到托盘："@ + "否"@
                    + "\n探测使用系统路由，不等同于认证状态。\n\n认证服务器："@,
            )
        }),
{
    let tray = if fields.minimize_to_tray {
        "是"@
    } else {
        "否"@
    };
    let path = match config_path {
        Some(path) => path,
        None => "无配置文件（使用内置认证服务器）"@,
    };
    let log = if recent.len() == 0 {
        "（本次运行还没有日志）"@
    } else {
        recent
    };
    let r0 = "DrCom Rust "@ + version;
    assert(r0.take(r0.len() as int) =~= r0);
    assert(begins(r0, r0));
    lemma_longer(r0, "\n导出时间："@);
    lemma_longer(r0 + "\n导出时间："@, event_log::stamp(now));
    lemma_longer(r0 + "\n导出时间："@ + event_log::stamp(now), "\n状态："@);
    lemma_row(r0, "\n导出时间："@, event_log::stamp(now), "\n状态："@);
    let r1 = r0 + "\n导出时间："@ + event_log::stamp(now);
    lemma_longer(r1 + "\n状态："@, fields.connection_state@);
    lemma_longer(r1 + "\n状态："@ + fields.connection_state@, "\n网卡："@);
    lemma_row(r1, "\n状态："@, fields.connection_state@, "\n网卡："@);
    let r2 = r1 + "\n状态："@ + fields.connection_state@;
    lemma_longer(r2 + "\n网卡："@, fields.adapter_name@);
    lemma_longer(r2 + "\n网卡："@ + fields.adapter_name@, "\nIPv4："@);
    lemma_row(r2, "\n网卡："@, fields.adapter_name@, "\nIPv4："@);
    let r3 = r2 + "\n网卡："@ + fields.adapter_name@;
    lemma_longer(r3 + "\nIPv4："@, fields.ipv4@);
    lemma_longer(r3 + "\nIPv4："@ + fields.ipv4@, "\nMAC："@);
    lemma_row(r3, "\nIPv4："@, fields.ipv4@, "\nMAC："@);
    let r4 = r3 + "\nIPv4："@ + fields.ipv4@;
    lemma_longer(r4 + "\nMAC："@, fields.mac@);
    lemma_longer(r4 + "\nMAC："@ + fields.mac@, "\n网关："@);
    lemma_row(r4, "\nMAC："@, fields.mac@, "\n网关："@);
    let r5 = r4 + "\nMAC："@ + fields.mac@;
    lemma_longer(r5 + "\n网关："@, fields.gateway@);
    lemma_longer(r5 + "\n网关："@ + fields.gateway@, "\nDNS："@);
    lemma_row(r5, "\n网关："@, fields.gateway@, "\nDNS："@);
    let r6 = r5 + "\n网关："@ + fields.gateway@;
    lemma_longer(r6 + "\nDNS："@, fields.dns@);
    lemma_longer(r6 + "\nDNS："@ + fields.dns@, "\nIPv6："@);
    lemma_row(r6, "\nDNS："@, fields.dns@, "\nIPv6："@);
    let r7 = r6 + "\nDNS："@ + fields.dns@;
    lemma_longer(r7 + "\nIPv6："@, fields.ipv6@);
    lemma_longer(r7 + "\nIPv6："@ + fields.ipv6@, "\n在线时长："@);
    lemma_row(r7, "\nIPv6："@, fields.ipv6@, "\n在线时长："@);
    let r8 = r7 + "\nIPv6："@ + fields.ipv6@;
    lemma_longer(r8 + "\n在线时长："@, fields.duration@);
    lemma_longer(r8 + "\n在线时长："@ + fields.duration@, "\n校内："@);
    lemma_row(r8, "\n在线时长："@, fields.duration@, "\n校内："@);
    let r9 = r8 + "\n在线时长："@ + fields.duration@;
    lemma_longer(r9 + "\n校内："@, fields.campus@);
    lemma_longer(r9 + "\n校内："@ + fields.campus@, "\n公网 IPv4："@);
    lemma_row(r9, "\n校内："@, fields.campus@, "\n公网 IPv4："@);
    let r10 = r9 + "\n校内："@ + fields.campus@;
    lemma_longer(r10 + "\n公网 IPv4："@, fields.internet_v4@);
    lemma_longer(r10 + "\n公网 IPv4："@ + fields.internet_v4@, "\n公网 IPv6："@);
    lemma_row(r10, "\n公网 IPv4："@, fields.internet_v4@, "\n公网 IPv6："@);
    let r11 = r10 + "\n公网 IPv4："@ + fields.internet_v4@;
    lemma_longer(r11 + "\n公网 IPv6："@, fields.internet_v6@);
    lemma_longer(r11 + "\n公网 IPv6："@ + fields.internet_v6@, "\n关闭窗口最小化到托盘："@);
    lemma_row(r11, "\n公网 IPv6："@, fields.internet_v6@, "\n关闭窗口最小化到托盘："@);
    let r12 = r11 + "\n公网 IPv6："@ + fields.internet_v6@;
    lemma_longer(r12 + "\n关闭窗口最小化到托盘："@, tray);
    lemma_longer(r12 + "\n关闭窗口最小化到托盘："@ + tray, "\n探测使用系统路由，不等同于认证状态。\n\n认证服务器："@);
    lemma_row(r12, "\n关闭窗口最小化到托盘："@, tray, "\n探测使用系统路由，不等同于认证状态。\n\n认证服务器："@);
    let r13 = r12 + "\n关闭窗口最小化到托盘："@ + tray;
    lemma_longer(r13 + "\n探测使用系统路由，不等同于认证状态。\n\n认证服务器："@, path);
    lemma_longer(r13 + "\n探测使用系统路由，不等同于认证状态。\n\n认证服务器："@ + path, "\n最近日志：\n"@);
    lemma_longer(r13 + "\n探测使用系统路由，不等同于认证状态。\n\n认证服务器："@ + path + "\n最近日志：\n"@, log);
    assert(report_of(version, now, fields, config_path, recent) == r13 + "\n探测使用系统路由，不等同于认证状态。\n\n认证服务器："@ + path
        + "\n最近日志：\n"@ + log);
}

/// A report ends with the file that the settings come from and the end of the log; each of the two
/// is told by words of its own where there is none.
pub proof fn law_the_end_of_a_report(
    version: Seq<char>,
    now: LocalTime,
    fields: ReportFields,
    config_path: Option<Seq<char>>,
    recent: Seq<char>,
)
    ensures
        ({
            let report = report_of(version, now, fields, config_path, recent);
            let path = match config_path {
                Some(path) => path,
                None => "无配置文件（使用内置认证服务器）"@,
            };
            let log = if recent.len() == 0 {
                "（本次运行还没有日志）"@
            } else {
                recent
            };
            let back = "\n探测使用系统路由，不等同于认证状态。\n\n认证服务器："@ + path
                + "\n最近日志：\n"@ + log;
            &&& back.len() <= report.len()
            &&& report.skip(report.len() - back.len()) == back
        }),
{
    let path = match config_path {
        Some(path) => path,
        None => "无配置文件（使用内置认证服务器）"@,
    };
    let log = if recent.len() == 0 {
        "（本次运行还没有日志）"@
    } else {
        recent
    };
    let marked = "\n探测使用系统路由，不等同于认证状态。\n\n认证服务器："@;
    let named = "\n最近日志：\n"@;
    lemma_end(
        report_front(version, now, fields),
        marked,
        path,
        named,
        log,
    );
}

spec fn report_front(version: Seq<char>, now: LocalTime, fields: ReportFields) -> Seq<char> {
    "DrCom Rust "@ + version + "\n导出时间："@ + event_log::stamp(now) + "\n状态："@
        + fields.connection_state@ + "\n网卡："@ + fields.adapter_name@ + "\nIPv4："@
        + fields.ipv4@ + "\nMAC："@ + fields.mac@ + "\n网关："@ + fields.gateway@ + "\nDNS："@
        + fields.dns@ + "\nIPv6："@ + fields.ipv6@ + "\n在线时长："@ + fields.duration@
        + "\n校内："@ + fields.campus@ + "\n公网 IPv4："@ + fields.internet_v4@
        + "\n公网 IPv6："@ + fields.internet_v6@ + "\n关闭窗口最小化到托盘："@ + (
    if fields.minimize_to_tray {
        "是"@
    } else {
        "否"@
    })
}

proof fn lemma_end(a: Seq<char>, b: Seq<char>, c: Seq<char>, d: Seq<char>, e: Seq<char>)
    ensures
        ({
            let whole = a + b + c + d + e;
            let back = b + c + d + e;
            &&& back.len() <= whole.len()
            &&& whole.skip(whole.len() - back.len()) == back
        }),
{
    let whole = a + b + c + d + e;
    let back = b + c + d + e;
    assert(whole =~= a + back);
    assert((a + back).skip(a.len() as int) =~= back);
}

} // verus!
