//! A static IPv4 setting: checked before anything is done, then turned into a script.

use base64::engine::general_purpose::STANDARD;
use base64::Engine;
use vstd::prelude::*;

use crate::adapter;
use crate::net::{self, Ipv4Addr};
use crate::text;

verus! {

/// The longest adapter name, in bytes, that a script is made for: its encoded form stays within
/// the address space of a 32-bit machine.
pub const MAX_ADAPTER_NAME: usize = 0x1000_0000;

/// A static IPv4 setting that has passed every check. There is no other way to one than `parse`.
#[derive(Debug, Clone, Copy, PartialEq, Eq)]
pub struct Configuration {
    address: Ipv4Addr,
    mask: Ipv4Addr,
    gateway: Ipv4Addr,
    dns: Ipv4Addr,
}

/// What a setting says.
pub struct Setting {
    pub address: Ipv4Addr,
    pub mask: Ipv4Addr,
    pub gateway: Ipv4Addr,
    pub dns: Ipv4Addr,
}

impl View for Configuration {
    type V = Setting;

    closed spec fn view(&self) -> Setting {
        Setting {
            address: self.address,
            mask: self.mask,
            gateway: self.gateway,
            dns: self.dns,
        }
    }
}

impl Configuration {
    #[verifier::type_invariant]
    spec fn checked(self) -> bool {
        consistent(self@)
    }
}

/// Whether a mask leaves the last bits for hosts: `/1` to `/30`.
pub open spec fn is_mask(mask: Ipv4Addr, prefix: u8) -> bool {
    1 <= prefix <= 30 && adapter::mask_of(prefix) == Some(mask)
}

/// How many addresses a network with this prefix has.
pub open spec fn network_size(prefix: u8) -> nat {
    adapter::power2((32 - prefix) as nat)
}

/// Whether an address can be that of one machine: not `0.x`, not loopback, not above `223.x`.
pub open spec fn unicast(address: Ipv4Addr) -> bool {
    address.a != 0 && address.a != 127 && address.a < 224
}

/// Whether an address is neither the first of its network nor the last.
pub open spec fn is_host(address: Ipv4Addr, prefix: u8) -> bool {
    let host = address.number() as nat % network_size(prefix);
    host != 0 && host != network_size(prefix) - 1
}

/// Whether two addresses lie in one network.
pub open spec fn same_network(one: Ipv4Addr, other: Ipv4Addr, prefix: u8) -> bool {
    one.number() as nat / network_size(prefix) == other.number() as nat / network_size(prefix)
}

/// Why a setting is refused, if it is, given its mask's prefix length where the mask has one.
pub open spec fn objection(config: Setting, prefix: Option<u8>) -> Option<Seq<char>> {
    match prefix {
        None => Some("子网掩码必须连续，支持 /1 到 /30"@),
        Some(prefix) => if !unicast(config.address) || !unicast(config.gateway) || !unicast(
            config.dns,
        ) {
            Some("地址、网关和 DNS 必须是有效单播 IPv4 地址"@)
        } else if !is_host(config.address, prefix) || !is_host(config.gateway, prefix) {
            Some("地址和网关不能使用子网的网络地址或广播地址"@)
        } else if !same_network(config.address, config.gateway, prefix) || config.address
            == config.gateway {
            Some("网关必须与地址处于同一子网，且不能相同"@)
        } else {
            None
        },
    }
}

/// The prefix length of a mask, if it has one from 1 to 30.
pub open spec fn prefix_of(mask: Ipv4Addr) -> Option<u8> {
    if exists|prefix: u8| is_mask(mask, prefix) {
        Some(choose|prefix: u8| is_mask(mask, prefix))
    } else {
        None
    }
}

/// Whether nothing is to be said against a setting.
pub open spec fn consistent(config: Setting) -> bool {
    objection(config, prefix_of(config.mask)) is None
}

/// The setting that four fields give, or the complaint about the first that is wrong.
pub open spec fn configuration_of(
    address: Seq<char>,
    mask: Seq<char>,
    gateway: Seq<char>,
    dns: Seq<char>,
) -> Result<Setting, Seq<char>> {
    match net::ipv4_of(text::trimmed(address)) {
        None => Err("IPv4 地址 格式不正确"@),
        Some(address) => match net::ipv4_of(text::trimmed(mask)) {
            None => Err("子网掩码 格式不正确"@),
            Some(mask) => match net::ipv4_of(text::trimmed(gateway)) {
                None => Err("网关 格式不正确"@),
                Some(gateway) => match net::ipv4_of(text::trimmed(dns)) {
                    None => Err("DNS 格式不正确"@),
                    Some(dns) => {
                        let config = Setting { address, mask, gateway, dns };
                        match objection(config, prefix_of(mask)) {
                            Some(message) => Err(message),
                            None => Ok(config),
                        }
                    },
                },
            },
        },
    }
}

/// The Base64 character of a number below 64: the letters, the digits, `+` and `/`.
pub open spec fn base64_symbol(n: int) -> char {
    if n < 26 {
        (65 + n) as char
    } else if n < 52 {
        (71 + n) as char
    } else if n < 62 {
        (n - 4) as char
    } else if n == 62 {
        '+'
    } else {
        '/'
    }
}

/// The standard Base64 text of bytes: each three bytes are four numbers of six bits, and `=` stands
/// where the last bytes give no number.
pub open spec fn base64(data: Seq<u8>) -> Seq<char>
    decreases data.len(),
{
    if data.len() == 0 {
        Seq::empty()
    } else {
        let one = data[0] as int;
        let two = if data.len() > 1 {
            data[1] as int
        } else {
            0
        };
        let three = if data.len() > 2 {
            data[2] as int
        } else {
            0
        };
        seq![
            base64_symbol(one / 4),
            base64_symbol(one % 4 * 16 + two / 16),
            if data.len() > 1 {
                base64_symbol(two % 16 * 4 + three / 64)
            } else {
                '='
            },
            if data.len() > 2 {
                base64_symbol(three % 64)
            } else {
                '='
            },
        ] + base64(
            if data.len() > 3 {
                data.skip(3)
            } else {
                Seq::empty()
            },
        )
    }
}

/// Whether a character can stand in Base64 text.
pub open spec fn is_base64(c: char) -> bool {
    ('A' <= c && c <= 'Z') || ('a' <= c && c <= 'z') || ('0' <= c && c <= '9') || c == '+' || c
        == '/' || c == '='
}

/// `STANDARD.encode` of the crate `base64`: the text of `data` in the standard alphabet, with
/// padding. The length of that text has to fit the address space.
#[verifier::external_body]
fn encode(data: &[u8]) -> (encoded: String)
    requires
        4 * ((data@.len() + 2) / 3) <= isize::MAX,
    ensures
        encoded@ == base64(data@),
{
    STANDARD.encode(data)
}

/// Base64 text has four characters for each three bytes begun, and is made of the letters, the
/// digits, `+`, `/` and `=` alone.
pub proof fn law_base64_is_plain(data: Seq<u8>)
    ensures
        base64(data).len() == 4 * ((data.len() + 2) / 3),
        forall|i: int| 0 <= i < base64(data).len() ==> is_base64(#[trigger] base64(data)[i]),
    decreases data.len(),
{
    if data.len() > 3 {
        law_base64_is_plain(data.skip(3));
    } else if data.len() > 0 {
        law_base64_is_plain(Seq::empty());
    }
    if data.len() > 0 {
        let rest = base64(
            if data.len() > 3 {
                data.skip(3)
            } else {
                Seq::empty()
            },
        );
        let all = base64(data);
        assert(all.len() == 4 + rest.len());
        assert forall|i: int| 0 <= i < all.len() implies is_base64(#[trigger] all[i]) by {
            if i >= 4 {
                assert(all[i] == rest[i - 4]);
            }
        }
    }
}

/// What stands before the encoded adapter name in a script.
pub open spec fn script_head() -> Seq<char> {
    "$ErrorActionPreference = 'Stop'\n$adapter = [Text.Encoding]::UTF8.GetString([Convert]::FromBase64String('"@
}

/// What stands behind the encoded adapter name in a script.
pub open spec fn script_tail(config: Setting) -> Seq<char> {
    "'))\n& \"$env:SystemRoot\\System32\\netsh.exe\" interface ipv4 set address \"name=$adapter\" static "@
        + net::ipv4_text(config.address) + " "@ + net::ipv4_text(config.mask) + " "@
        + net::ipv4_text(config.gateway)
        + " 1\nif ($LASTEXITCODE -ne 0) { exit 10 }\n& \"$env:SystemRoot\\System32\\netsh.exe\" interface ipv4 set dnsservers \"name=$adapter\" static "@
        + net::ipv4_text(config.dns)
        + " primary validate=no\nif ($LASTEXITCODE -ne 0) { exit 11 }\nexit 0"@
}

/// The script that applies a setting to the adapter whose name is encoded in it.
pub open spec fn script_text(config: Setting, encoded_name: Seq<char>) -> Seq<char> {
    script_head() + encoded_name + script_tail(config)
}

/// The bytes of UTF-16 code units, least significant first.
pub open spec fn unit_bytes(units: Seq<u16>) -> Seq<u8>
    decreases units.len(),
{
    if units.len() == 0 {
        Seq::empty()
    } else {
        unit_bytes(units.drop_last()) + crate::bytes::le16(units.last())
    }
}

/// The command that asks for elevation and runs an encoded script. Only fixed switches and Base64
/// text stand in it.
pub open spec fn command_text(encoded_script: Seq<char>) -> Seq<char> {
    "try { $p = Start-Process -FilePath \"$env:SystemRoot\\System32\\WindowsPowerShell\\v1.0\\powershell.exe\" -Verb RunAs -WindowStyle Hidden -ArgumentList '-NoProfile -NonInteractive -WindowStyle Hidden -EncodedCommand "@
        + encoded_script
        + "' -Wait -PassThru; exit $p.ExitCode } catch { exit 12 }"@
}

/// What an exit code of the command means.
pub open spec fn exit_meaning(code: Option<i32>) -> Result<(), Seq<char>> {
    if code == Some(0i32) {
        Ok(())
    } else if code == Some(10i32) {
        Err("IPv4 地址设置失败，请检查地址和网卡状态"@)
    } else if code == Some(11i32) {
        Err("IPv4 地址已修改，但 DNS 设置失败；请重试或打开 Windows 网络设置检查"@)
    } else {
        Err("网络设置未完成，管理员授权可能已取消"@)
    }
}

proof fn lemma_sizes(prefix: u8)
    requires
        1 <= prefix <= 30,
    ensures
        4 <= network_size(prefix) <= 0x8000_0000,
        adapter::power2(32) == 0x1_0000_0000,
{
    adapter::lemma_power2(2, (32 - prefix) as nat);
    adapter::lemma_power2((32 - prefix) as nat, 31);
    adapter::lemma_power2(31, 32);
    adapter::lemma_power2_at_32();
    reveal_with_fuel(adapter::power2, 3);
}

proof fn lemma_mask_number(mask: Ipv4Addr, prefix: u8)
    requires
        is_mask(mask, prefix),
    ensures
        mask.number() == 0x1_0000_0000 - network_size(prefix),
{
    lemma_sizes(prefix);
    lemma_digits((0x1_0000_0000 - network_size(prefix)) as u32);
}

proof fn lemma_digits(number: u32)
    ensures
        ({
            let address = Ipv4Addr {
                a: (number / 16777216) as u8,
                b: (number / 65536 % 256) as u8,
                c: (number / 256 % 256) as u8,
                d: (number % 256) as u8,
            };
            address.number() == number
        }),
{
    let high = number / 256;
    let top = number / 65536;
    assert(high / 256 == top);
    assert(top / 256 == number / 16777216);
    assert(number == 256 * high + number % 256);
    assert(high == 256 * top + high % 256);
    assert(top == 256 * (number / 16777216) + top % 256);
}

proof fn lemma_size_order(one: u8, other: u8)
    requires
        1 <= one < other <= 32,
    ensures
        adapter::power2((32 - one) as nat) > adapter::power2((32 - other) as nat),
{
    adapter::lemma_power2((32 - other) as nat, (32 - one) as nat);
}

/// A mask has one prefix length.
pub proof fn law_a_mask_has_one_prefix(mask: Ipv4Addr, one: u8, other: u8)
    requires
        is_mask(mask, one),
        is_mask(mask, other),
    ensures
        one == other,
{
    lemma_mask_number(mask, one);
    lemma_mask_number(mask, other);
    if one < other {
        lemma_size_order(one, other);
    } else if other < one {
        lemma_size_order(other, one);
    }
}

fn find_prefix(mask: Ipv4Addr) -> (prefix: Option<u8>)
    ensures
        prefix == prefix_of(mask),
        prefix matches Some(p) ==> is_mask(mask, p),
{
    let mut p: u8 = 1;
    while p <= 30
        invariant
            1 <= p <= 31,
            forall|q: u8| 1 <= q < p ==> !#[trigger] is_mask(mask, q),
        decreases 31 - p,
    {
        if let Some(candidate) = adapter::subnet_mask(p) {
            if candidate == mask {
                proof {
                    assert(is_mask(mask, p));
                    let chosen = choose|q: u8| is_mask(mask, q);
                    law_a_mask_has_one_prefix(mask, chosen, p);
                }
                return Some(p);
            }
        }
        p += 1;
    }
    None
}

fn size_of(prefix: u8) -> (size: u32)
    requires
        1 <= prefix <= 30,
    ensures
        size == network_size(prefix),
        4 <= size,
{
    proof {
        lemma_sizes(prefix);
    }
    let mut size: u32 = 1;
    let mut i: u8 = 32;
    while i > prefix
        invariant
            1 <= prefix <= i <= 32,
            prefix <= 30,
            size == adapter::power2((32 - i) as nat),
            network_size(prefix) <= 0x8000_0000,
        decreases i,
    {
        proof {
            lemma_size_order((i - 1) as u8, i);
            if prefix < i - 1 {
                lemma_size_order(prefix, (i - 1) as u8);
            }
            assert(adapter::power2((33 - i) as nat) == 2 * adapter::power2((32 - i) as nat));
        }
        size = size * 2;
        i -= 1;
    }
    size
}

fn is_unicast(address: Ipv4Addr) -> (yes: bool)
    ensures
        yes == unicast(address),
{
    address.a != 0 && address.a != 127 && address.a < 224
}

fn parse_field(value: &str) -> (address: Option<Ipv4Addr>)
    ensures
        address == net::ipv4_of(text::trimmed(value@)),
{
    net::parse_ipv4(text::trim(&text::chars_of(value)))
}

impl Configuration {
    /// Checks the four fields of the editor.
    pub fn parse(address: &str, mask: &str, gateway: &str, dns: &str) -> (result: Result<
        Self,
        String,
    >)
        ensures
            match result {
                Ok(config) => configuration_of(address@, mask@, gateway@, dns@) == Ok::<
                    Setting,
                    Seq<char>,
                >(config@),
                Err(message) => configuration_of(address@, mask@, gateway@, dns@) == Err::<
                    Setting,
                    Seq<char>,
                >(message@),
            },
    {
        let address = match parse_field(address) {
            Some(found) => found,
            None => return Err("IPv4 地址 格式不正确".to_string()),
        };
        let mask = match parse_field(mask) {
            Some(found) => found,
            None => return Err("子网掩码 格式不正确".to_string()),
        };
        let gateway = match parse_field(gateway) {
            Some(found) => found,
            None => return Err("网关 格式不正确".to_string()),
        };
        let dns = match parse_field(dns) {
            Some(found) => found,
            None => return Err("DNS 格式不正确".to_string()),
        };
        let prefix: u8 = match find_prefix(mask) {
            Some(prefix) => prefix,
            None => return Err("子网掩码必须连续，支持 /1 到 /30".to_string()),
        };
        if !is_unicast(address) || !is_unicast(gateway) || !is_unicast(dns) {
            return Err("地址、网关和 DNS 必须是有效单播 IPv4 地址".to_string());
        }
        let size: u32 = size_of(prefix);
        let host: u32 = address.to_number() % size;
        let gateway_host: u32 = gateway.to_number() % size;
        if host == 0 || host == size - 1 || gateway_host == 0 || gateway_host == size - 1 {
            return Err("地址和网关不能使用子网的网络地址或广播地址".to_string());
        }
        if address.to_number() / size != gateway.to_number() / size || address == gateway {
            return Err("网关必须与地址处于同一子网，且不能相同".to_string());
        }
        Ok(Configuration { address, mask, gateway, dns })
    }

    /// The script that applies the setting to an adapter. The adapter's name stands in it as
    /// Base64 text alone, so no name can add a command.
    pub fn script(&self, adapter_name: &str) -> (script: String)
        requires
            vstd::utf8::encode_utf8(adapter_name@).len() <= MAX_ADAPTER_NAME,
        ensures
            script@ == script_text(self@, base64(vstd::utf8::encode_utf8(adapter_name@))),
            consistent(self@),
    {
        proof {
            use_type_invariant(self);
        }
        let encoded = encode(adapter_name.as_bytes());
        self.script_for(&encoded)
    }

    /// The script around an encoded adapter name.
    pub fn script_for(&self, encoded_name: &str) -> (script: String)
        ensures
            script@ == script_text(self@, encoded_name@),
    {
        let mut script = "$ErrorActionPreference = 'Stop'\n$adapter = [Text.Encoding]::UTF8.GetString([Convert]::FromBase64String('".to_string();
        script.append(encoded_name);
        script.append(
            "'))\n& \"$env:SystemRoot\\System32\\netsh.exe\" interface ipv4 set address \"name=$adapter\" static ",
        );
        script.append(&net::ipv4_string(self.address));
        script.append(" ");
        script.append(&net::ipv4_string(self.mask));
        script.append(" ");
        script.append(&net::ipv4_string(self.gateway));
        script.append(
            " 1\nif ($LASTEXITCODE -ne 0) { exit 10 }\n& \"$env:SystemRoot\\System32\\netsh.exe\" interface ipv4 set dnsservers \"name=$adapter\" static ",
        );
        script.append(&net::ipv4_string(self.dns));
        script.append(" primary validate=no\nif ($LASTEXITCODE -ne 0) { exit 11 }\nexit 0");
        assert(script@ =~= script_text(self@, encoded_name@));
        script
    }

    /// The command that applies the setting to an adapter: the script, as Base64 of its UTF-16
    /// form, behind a request for elevation.
    pub fn command(&self, adapter_name: &str) -> (command: String)
        requires
            vstd::utf8::encode_utf8(adapter_name@).len() <= MAX_ADAPTER_NAME,
        ensures
            command@ == command_text(
                base64(
                    unit_bytes(
                        text::utf16(
                            script_text(
                                self@,
                                base64(vstd::utf8::encode_utf8(adapter_name@)),
                            ),
                        ),
                    ),
                ),
            ),
    {
        let script = self.script(adapter_name);
        let units = text::utf16_units(&script);
        let payload = le_bytes(&units);
        proof {
            law_base64_is_plain(vstd::utf8::encode_utf8(adapter_name@));
            lemma_script_len(self@, base64(vstd::utf8::encode_utf8(adapter_name@)));
            lemma_utf16_len(script@);
            lemma_unit_bytes_len(units@);
        }
        command_for(&encode(&payload))
    }
}

/// The command around an encoded script.
pub fn command_for(encoded_script: &str) -> (command: String)
    ensures
        command@ == command_text(encoded_script@),
{
    let mut command = "try { $p = Start-Process -FilePath \"$env:SystemRoot\\System32\\WindowsPowerShell\\v1.0\\powershell.exe\" -Verb RunAs -WindowStyle Hidden -ArgumentList '-NoProfile -NonInteractive -WindowStyle Hidden -EncodedCommand ".to_string();
    command.append(encoded_script);
    command.append("' -Wait -PassThru; exit $p.ExitCode } catch { exit 12 }");
    command
}

/// What came of the command, going by its exit code.
pub fn apply_result(code: Option<i32>) -> (result: Result<(), String>)
    ensures
        match result {
            Ok(()) => exit_meaning(code) is Ok,
            Err(message) => exit_meaning(code) == Err::<(), Seq<char>>(message@),
        },
{
    match code {
        Some(0) => Ok(()),
        Some(10) => Err("IPv4 地址设置失败，请检查地址和网卡状态".to_string()),
        Some(11) => Err(
            "IPv4 地址已修改，但 DNS 设置失败；请重试或打开 Windows 网络设置检查".to_string(),
        ),
        _ => Err("网络设置未完成，管理员授权可能已取消".to_string()),
    }
}

/// The bytes of UTF-16 code units, least significant first.
pub fn le_bytes(units: &[u16]) -> (data: Vec<u8>)
    ensures
        data@ == unit_bytes(units@),
{
    let mut data: Vec<u8> = Vec::new();
    let mut i: usize = 0;
    assert(units@.take(0) =~= Seq::empty());
    while i < units.len()
        invariant
            i <= units@.len(),
            data@ == unit_bytes(units@.take(i as int)),
        decreases units@.len() - i,
    {
        proof {
            let next = units@.take(i + 1);
            assert(next.drop_last() =~= units@.take(i as int));
            assert(next.last() == units@[i as int]);
        }
        crate::bytes::append(&mut data, &crate::bytes::le16_bytes(units[i]));
        i += 1;
    }
    assert(units@.take(units@.len() as int) =~= units@);
    data
}

proof fn lemma_utf16_len(words: Seq<char>)
    ensures
        text::utf16(words).len() <= 2 * words.len(),
    decreases words.len(),
{
    if words.len() > 0 {
        lemma_utf16_len(words.drop_last());
    }
}

proof fn lemma_unit_bytes_len(units: Seq<u16>)
    ensures
        unit_bytes(units).len() == 2 * units.len(),
    decreases units.len(),
{
    if units.len() > 0 {
        lemma_unit_bytes_len(units.drop_last());
    }
}

proof fn lemma_address_len(address: Ipv4Addr)
    ensures
        net::ipv4_text(address).len() <= 15,
{
    reveal_with_fuel(text::decimal, 4);
}

proof fn lemma_script_len(config: Setting, encoded_name: Seq<char>)
    ensures
        script_text(config, encoded_name).len() <= encoded_name.len() + 1000,
{
    reveal_strlit(
        "$ErrorActionPreference = 'Stop'\n$adapter = [Text.Encoding]::UTF8.GetString([Convert]::FromBase64String('",
    );
    reveal_strlit(
        "'))\n& \"$env:SystemRoot\\System32\\netsh.exe\" interface ipv4 set address \"name=$adapter\" static ",
    );
    reveal_strlit(" ");
    reveal_strlit(
        " 1\nif ($LASTEXITCODE -ne 0) { exit 10 }\n& \"$env:SystemRoot\\System32\\netsh.exe\" interface ipv4 set dnsservers \"name=$adapter\" static ",
    );
    reveal_strlit(" primary validate=no\nif ($LASTEXITCODE -ne 0) { exit 11 }\nexit 0");
    lemma_address_len(config.address);
    lemma_address_len(config.mask);
    lemma_address_len(config.gateway);
    lemma_address_len(config.dns);
}

/// A setting that was accepted is consistent: address and gateway are two different hosts of one
/// network, and every address in it can be that of a machine.
pub proof fn law_an_accepted_setting_is_consistent(
    address: Seq<char>,
    mask: Seq<char>,
    gateway: Seq<char>,
    dns: Seq<char>,
)
    requires
        configuration_of(address, mask, gateway, dns) is Ok,
    ensures
        ({
            let config = configuration_of(address, mask, gateway, dns)->Ok_0;
            &&& prefix_of(config.mask) is Some
            &&& is_mask(config.mask, prefix_of(config.mask)->0)
            &&& config.address != config.gateway
            &&& same_network(config.address, config.gateway, prefix_of(config.mask)->0)
            &&& is_host(config.address, prefix_of(config.mask)->0)
            &&& is_host(config.gateway, prefix_of(config.mask)->0)
            &&& unicast(config.address)
            &&& unicast(config.gateway)
            &&& unicast(config.dns)
        }),
{
}

/// An adapter's name cannot leave its place in the script: the encoded name stands between two
/// quotes and holds none itself, and nothing else in the script depends on it.
pub proof fn law_a_name_stays_between_its_quotes(config: Setting, name: Seq<u8>)
    ensures
        script_text(config, base64(name)) == script_head() + base64(name) + script_tail(config),
        script_head().len() > 0,
        script_head().last() == '\'',
        script_tail(config).len() > 0,
        script_tail(config)[0] == '\'',
        !base64(name).contains('\''),
{
    law_base64_is_plain(name);
    reveal_strlit(
        "$ErrorActionPreference = 'Stop'\n$adapter = [Text.Encoding]::UTF8.GetString([Convert]::FromBase64String('",
    );
    reveal_strlit(
        "'))\n& \"$env:SystemRoot\\System32\\netsh.exe\" interface ipv4 set address \"name=$adapter\" static ",
    );
}

/// A mask has a prefix where it leaves a power of two of addresses, at least four of them, and
/// not the whole space.
pub proof fn law_which_masks_have_a_prefix(mask: Ipv4Addr, prefix: u8)
    ensures
        prefix_of(mask) == Some(prefix) <==> (1 <= prefix <= 30 && mask.number() + adapter::power2(
            (32 - prefix) as nat,
        ) == 0x1_0000_0000),
        prefix_of(mask) is None <==> forall|p: u8|
            1 <= p <= 30 ==> mask.number() + #[trigger] adapter::power2((32 - p) as nat)
                != 0x1_0000_0000,
{
    assert forall|p: u8| is_mask(mask, p) implies 1 <= p <= 30 && mask.number()
        + #[trigger] adapter::power2((32 - p) as nat) == 0x1_0000_0000 by {
        lemma_mask_number(mask, p);
    }
    assert forall|p: u8|
        1 <= p <= 30 && mask.number() + #[trigger] adapter::power2((32 - p) as nat)
            == 0x1_0000_0000 implies is_mask(mask, p) by {
        lemma_sizes(p);
        let number = (0x1_0000_0000 - network_size(p)) as u32;
        lemma_digits(number);
        net::law_number_identifies_the_address(mask, adapter::mask_of(p)->0);
    }
    if is_mask(mask, prefix) {
        law_a_mask_has_one_prefix(mask, prefix, prefix_of(mask)->0);
    }
    if prefix_of(mask) is None {
        assert forall|p: u8| 1 <= p <= 30 implies mask.number() + #[trigger] adapter::power2(
            (32 - p) as nat,
        ) != 0x1_0000_0000 by {
            assert(!is_mask(mask, p));
        }
    }
}

/// Where an address stands in its network: the addresses of a network are counted from zero, the
/// first and the last of them belong to no machine, and two addresses share a network where they
/// differ in that count alone.
pub proof fn law_where_an_address_stands(
    one: Ipv4Addr,
    other: Ipv4Addr,
    prefix: u8,
    network: int,
    place: int,
    other_network: int,
    other_place: int,
)
    requires
        1 <= prefix <= 30,
        one.number() == network * network_size(prefix) + place,
        0 <= place < network_size(prefix),
        other.number() == other_network * network_size(prefix) + other_place,
        0 <= other_place < network_size(prefix),
    ensures
        network_size(prefix) == adapter::power2((32 - prefix) as nat),
        is_host(one, prefix) <==> 1 <= place <= network_size(prefix) - 2,
        same_network(one, other, prefix) <==> network == other_network,
{
    lemma_sizes(prefix);
    let size = network_size(prefix) as int;
    vstd::arithmetic::div_mod::lemma_fundamental_div_mod_converse(
        one.number() as int,
        size,
        network,
        place,
    );
    vstd::arithmetic::div_mod::lemma_fundamental_div_mod_converse(
        other.number() as int,
        size,
        other_network,
        other_place,
    );
}

/// An address can be that of one machine where its first octet is 1 to 223 and not 127.
pub proof fn law_which_addresses_name_a_machine(address: Ipv4Addr)
    ensures
        unicast(address) <==> (1 <= address.a <= 126 || 128 <= address.a <= 223),
{
}

/// Four addresses written in dotted notation, with or without white space around them, are
/// accepted as they stand unless they do not fit together: the mask is looked at first, then the
/// kind of each address, then their places in the network, then the gateway.
pub proof fn law_what_four_fields_come_to(
    blanks: Seq<char>,
    config: Setting,
    prefix: u8,
)
    requires
        text::all_spaces(blanks),
    ensures
        ({
            let read = configuration_of(
                blanks + net::ipv4_text(config.address) + blanks,
                blanks + net::ipv4_text(config.mask) + blanks,
                blanks + net::ipv4_text(config.gateway) + blanks,
                blanks + net::ipv4_text(config.dns) + blanks,
            );
            let machines = unicast(config.address) && unicast(config.gateway) && unicast(config.dns);
            let hosts = is_host(config.address, prefix) && is_host(config.gateway, prefix);
            let reached = same_network(config.address, config.gateway, prefix) && config.address
                != config.gateway;
            &&& prefix_of(config.mask) is None ==> read == Err::<Setting, Seq<char>>(
                "子网掩码必须连续，支持 /1 到 /30"@,
            )
            &&& prefix_of(config.mask) == Some(prefix) && !machines ==> read == Err::<
                Setting,
                Seq<char>,
            >("地址、网关和 DNS 必须是有效单播 IPv4 地址"@)
            &&& prefix_of(config.mask) == Some(prefix) && machines && !hosts ==> read == Err::<
                Setting,
                Seq<char>,
            >("地址和网关不能使用子网的网络地址或广播地址"@)
            &&& prefix_of(config.mask) == Some(prefix) && machines && hosts && !reached ==> read
                == Err::<Setting, Seq<char>>("网关必须与地址处于同一子网，且不能相同"@)
            &&& prefix_of(config.mask) == Some(prefix) && machines && hosts && reached ==> read
                == Ok::<Setting, Seq<char>>(config)
        }),
{
    lemma_field(blanks, config.address);
    lemma_field(blanks, config.mask);
    lemma_field(blanks, config.gateway);
    lemma_field(blanks, config.dns);
}

proof fn lemma_field(blanks: Seq<char>, address: Ipv4Addr)
    requires
        text::all_spaces(blanks),
    ensures
        net::ipv4_of(text::trimmed(blanks + net::ipv4_text(address) + blanks)) == Some(address),
{
    let core = net::ipv4_text(address);
    text::law_decimal_spells_the_number(address.a as nat);
    text::law_decimal_spells_the_number(address.d as nat);
    let first = text::decimal(address.a as nat);
    let last = text::decimal(address.d as nat);
    assert(core[0] == first[0]);
    assert(core.last() == last[last.len() - 1]);
    assert(text::is_bare(core));
    text::law_trimming_keeps_what_stands_between(blanks, core, blanks);
    net::law_dotted_notation_is_read_back(address);
}

/// The first field that holds no address is the one complained about.
pub proof fn law_the_first_wrong_field_is_named(
    address: Seq<char>,
    mask: Seq<char>,
    gateway: Seq<char>,
    dns: Seq<char>,
)
    ensures
        ({
            let read = configuration_of(address, mask, gateway, dns);
            let first = net::ipv4_of(text::trimmed(address)) is Some;
            let second = net::ipv4_of(text::trimmed(mask)) is Some;
            let third = net::ipv4_of(text::trimmed(gateway)) is Some;
            let fourth = net::ipv4_of(text::trimmed(dns)) is Some;
            &&& !first ==> read == Err::<Setting, Seq<char>>("IPv4 地址 格式不正确"@)
            &&& first && !second ==> read == Err::<Setting, Seq<char>>("子网掩码 格式不正确"@)
            &&& first && second && !third ==> read == Err::<Setting, Seq<char>>(
                "网关 格式不正确"@,
            )
            &&& first && second && third && !fourth ==> read == Err::<Setting, Seq<char>>(
                "DNS 格式不正确"@,
            )
        }),
{
}

/// Each code unit becomes two bytes, the less significant one first, in order.
pub proof fn law_the_bytes_of_code_units(units: Seq<u16>, i: int)
    requires
        0 <= i < units.len(),
    ensures
        unit_bytes(units).len() == 2 * units.len(),
        unit_bytes(units)[2 * i] + 256 * unit_bytes(units)[2 * i + 1] == units[i],
    decreases units.len(),
{
    lemma_unit_bytes_len(units);
    lemma_unit_bytes_len(units.drop_last());
    if i < units.len() - 1 {
        law_the_bytes_of_code_units(units.drop_last(), i);
    } else {
        assert(unit_bytes(units)[2 * i] == crate::bytes::le16(units[i])[0]);
        assert(unit_bytes(units)[2 * i + 1] == crate::bytes::le16(units[i])[1]);
    }
}

/// Three bytes make four symbols of six bits each, and two or one byte at the end make three or
/// two symbols and as many `=` as are missing.
pub proof fn law_the_symbols_of_three_bytes(one: u8, two: u8, three: u8, rest: Seq<u8>)
    ensures
        base64(seq![one, two, three] + rest) == seq![
            base64_symbol((one * 0x1_0000 + two * 0x100 + three) / 0x4_0000),
            base64_symbol((one * 0x1_0000 + two * 0x100 + three) / 0x1000 % 64),
            base64_symbol((one * 0x1_0000 + two * 0x100 + three) / 0x40 % 64),
            base64_symbol((one * 0x1_0000 + two * 0x100 + three) % 64),
        ] + base64(rest),
        base64(seq![one, two]) == seq![
            base64_symbol((one * 0x100 + two) / 0x400),
            base64_symbol((one * 0x100 + two) / 0x10 % 64),
            base64_symbol((one * 0x100 + two) % 16 * 4),
            '=',
        ],
        base64(seq![one]) == seq![
            base64_symbol(one as int / 4),
            base64_symbol(one % 4 * 16),
            '=',
            '=',
        ],
{
    let whole = seq![one, two, three] + rest;
    assert(whole.skip(3) =~= rest);
    assert(whole[0] == one && whole[1] == two && whole[2] == three);
    if whole.len() == 3 {
        assert(rest =~= Seq::<u8>::empty());
    }
    lemma_six_bits(one, two, three);
    assert(base64(whole) =~= seq![
        base64_symbol(one as int / 4),
        base64_symbol(one as int % 4 * 16 + two as int / 16),
        base64_symbol(two as int % 16 * 4 + three as int / 64),
        base64_symbol(three as int % 64),
    ] + base64(rest));
    assert(base64(Seq::<u8>::empty()) =~= Seq::<char>::empty());
    assert(base64(seq![one, two]) =~= seq![
        base64_symbol(one as int / 4),
        base64_symbol(one as int % 4 * 16 + two as int / 16),
        base64_symbol(two as int % 16 * 4),
        '=',
    ]);
    assert(base64(seq![one]) =~= seq![
        base64_symbol(one as int / 4),
        base64_symbol(one as int % 4 * 16),
        '=',
        '=',
    ]);
}

proof fn lemma_six_bits(one: u8, two: u8, three: u8)
    ensures
        (one * 0x1_0000 + two * 0x100 + three) / 0x4_0000 == one as int / 4,
        (one * 0x1_0000 + two * 0x100 + three) / 0x1000 % 64 == one as int % 4 * 16 + two as int
            / 16,
        (one * 0x1_0000 + two * 0x100 + three) / 0x40 % 64 == two as int % 16 * 4 + three as int
            / 64,
        (one * 0x1_0000 + two * 0x100 + three) % 64 == three as int % 64,
        (one * 0x100 + two) / 0x400 == one as int / 4,
        (one * 0x100 + two) / 0x10 % 64 == one as int % 4 * 16 + two as int / 16,
        (one * 0x100 + two) % 16 == two as int % 16,
{
    let x = one as u32;
    let y = two as u32;
    let z = three as u32;
    assert(x < 256 && y < 256 && z < 256 ==> {
        &&& (x * 0x1_0000 + y * 0x100 + z) / 0x4_0000 == x / 4
        &&& (x * 0x1_0000 + y * 0x100 + z) / 0x1000 % 64 == x % 4 * 16 + y / 16
        &&& (x * 0x1_0000 + y * 0x100 + z) / 0x40 % 64 == y % 16 * 4 + z / 64
        &&& (x * 0x1_0000 + y * 0x100 + z) % 64 == z % 64
        &&& (x * 0x100 + y) / 0x400 == x / 4
        &&& (x * 0x100 + y) / 0x10 % 64 == x % 4 * 16 + y / 16
        &&& (x * 0x100 + y) % 16 == y % 16
    }) by (bit_vector);
}

/// The symbols are the capital letters, the small letters, the digits, `+` and `/`, in this order.
pub proof fn law_the_symbols_in_order(n: int)
    ensures
        0 <= n < 26 ==> base64_symbol(n) as int == 'A' as int + n,
        26 <= n < 52 ==> base64_symbol(n) as int == 'a' as int + (n - 26),
        52 <= n < 62 ==> base64_symbol(n) as int == '0' as int + (n - 52),
        base64_symbol(62) == '+',
        base64_symbol(63) == '/',
{
}

/// The command succeeded where it exited with 0. It could not set the address where it exited with
/// 10, and not the name server where it exited with 11; everything else counts as not done.
pub proof fn law_what_an_exit_code_means(code: Option<i32>)
    ensures
        exit_meaning(code) is Ok <==> code == Some(0i32),
        code == Some(10i32) ==> exit_meaning(code) == Err::<(), Seq<char>>(
            "IPv4 地址设置失败，请检查地址和网卡状态"@,
        ),
        code == Some(11i32) ==> exit_meaning(code) == Err::<(), Seq<char>>(
            "IPv4 地址已修改，但 DNS 设置失败；请重试或打开 Windows 网络设置检查"@,
        ),
        code is None || (code->0 != 0 && code->0 != 10 && code->0 != 11) ==> exit_meaning(code)
            == Err::<(), Seq<char>>("网络设置未完成，管理员授权可能已取消"@),
{
}

/// The encoded script is an argument of its own in the command: it stands behind the switch that
/// announces it and before the quote that ends the arguments, and nothing else depends on it.
pub proof fn law_the_script_stands_in_the_command(one: Seq<char>, other: Seq<char>)
    ensures
        ({
            let tail = "' -Wait -PassThru; exit $p.ExitCode } catch { exit 12 }"@;
            let n = command_text(one).len() - one.len() - tail.len();
            &&& 16 <= n
            &&& command_text(one).subrange(n - 16, n) == "-EncodedCommand "@
            &&& command_text(one).subrange(n, n + one.len()) == one
            &&& command_text(one).skip(n + one.len()) == tail
            &&& command_text(one).take(n) == command_text(other).take(n)
        }),
{
    reveal_strlit(
        "try { $p = Start-Process -FilePath \"$env:SystemRoot\\System32\\WindowsPowerShell\\v1.0\\powershell.exe\" -Verb RunAs -WindowStyle Hidden -ArgumentList '-NoProfile -NonInteractive -WindowStyle Hidden -EncodedCommand ",
    );
    reveal_strlit("-EncodedCommand ");
    let tail = "' -Wait -PassThru; exit $p.ExitCode } catch { exit 12 }"@;
    let n = command_text(one).len() - one.len() - tail.len();
    assert(command_text(one).subrange(n - 16, n) =~= "-EncodedCommand "@);
    assert(command_text(one).subrange(n, n + one.len()) =~= one);
    assert(command_text(one).skip(n + one.len()) =~= tail);
    assert(command_text(one).take(n) =~= command_text(other).take(n));
}

} // verus!
