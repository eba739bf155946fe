//! The client's configuration file.
//!
//! ```text
//! ; a comment
//! [drcom]
//! auth_server = 10.100.61.3, 10.100.61.4
//! svr_port    = 61440
//! account     = 20230001
//! ```
//!
//! A section header is accepted and ignored. A line whose first character that is not white space
//! is `;` or `#` is a comment. A value runs to the end of its line, so a password may hold `;`.
//! An unknown key is an error: in a file that is edited by hand, a typo must not pass in silence.

use vstd::prelude::*;

use crate::net::{self, Ipv4Addr};
use crate::reference_login::{ACCOUNT_FIELD_LEN, MAX_PASSWORD_LEN};
use crate::route::RouteMode;
use crate::text;

verus! {

/// Name of the file that is searched for.
pub const DEFAULT_FILE_NAME: &'static str = "drcom.ini";

/// Sub-directory of the roaming application data that is searched last.
pub const APP_DATA_DIR: &'static str = "DrComCampus";

/// Environment variable that names servers where the file does not.
pub const SERVER_ENV: &'static str = "DRCOM_SERVER";

/// The server of a client that is configured with none.
pub open spec fn builtin_server() -> Ipv4Addr {
    Ipv4Addr { a: 10, b: 100, c: 61, d: 3 }
}

/// What the client can be told, all of it optional until a session is made.
#[derive(Debug, Clone, PartialEq, Eq)]
pub struct ClientConfig {
    pub servers: Vec<Ipv4Addr>,
    pub account: String,
    pub password: String,
    pub local_ip: Option<Ipv4Addr>,
    pub mac: Option<u64>,
    pub hostname: Option<String>,
    pub dns: Option<Ipv4Addr>,
    pub dhcp: Option<Ipv4Addr>,
    pub server_port: Option<u16>,
    pub local_port: Option<u16>,
    pub auth_route: Option<RouteMode>,
}

/// The mathematical content of a `ClientConfig`.
pub struct ConfigView {
    pub servers: Seq<Ipv4Addr>,
    pub account: Seq<char>,
    pub password: Seq<char>,
    pub local_ip: Option<Ipv4Addr>,
    pub mac: Option<u64>,
    pub hostname: Option<Seq<char>>,
    pub dns: Option<Ipv4Addr>,
    pub dhcp: Option<Ipv4Addr>,
    pub server_port: Option<u16>,
    pub local_port: Option<u16>,
    pub auth_route: Option<RouteMode>,
}

impl View for ClientConfig {
    type V = ConfigView;

    open spec fn view(&self) -> ConfigView {
        ConfigView {
            servers: self.servers@,
            account: self.account@,
            password: self.password@,
            local_ip: self.local_ip,
            mac: self.mac,
            hostname: match self.hostname {
                Some(name) => Some(name@),
                None => None,
            },
            dns: self.dns,
            dhcp: self.dhcp,
            server_port: self.server_port,
            local_port: self.local_port,
            auth_route: self.auth_route,
        }
    }
}

impl ConfigView {
    /// Nothing is configured.
    pub open spec fn nothing() -> ConfigView {
        ConfigView {
            servers: Seq::empty(),
            account: Seq::empty(),
            password: Seq::empty(),
            local_ip: None,
            mac: None,
            hostname: None,
            dns: None,
            dhcp: None,
            server_port: None,
            local_port: None,
            auth_route: None,
        }
    }
}

impl Default for ClientConfig {
    fn default() -> (config: Self)
        ensures
            config@ == ConfigView::nothing(),
    {
        let config = ClientConfig {
            servers: Vec::new(),
            account: String::new(),
            password: String::new(),
            local_ip: None,
            mac: None,
            hostname: None,
            dns: None,
            dhcp: None,
            server_port: None,
            local_port: None,
            auth_route: None,
        };
        assert(config@.servers =~= Seq::empty());
        assert(config@.account =~= Seq::empty());
        assert(config@.password =~= Seq::empty());
        config
    }
}

/// A line that is refused; line 0 stands for the configuration as a whole.
#[derive(Debug, Clone, PartialEq, Eq)]
pub struct ConfigError {
    pub line: usize,
    pub message: String,
}

/// What a configuration error tells the user.
pub open spec fn config_error_text(line: nat, message: Seq<char>) -> Seq<char> {
    if line == 0 {
        message
    } else {
        "第 "@ + text::decimal(line) + " 行："@ + message
    }
}

impl ConfigError {
    pub fn to_text(&self) -> (shown: String)
        ensures
            shown@ == config_error_text(self.line as nat, self.message@),
    {
        if self.line == 0 {
            self.message.clone()
        } else {
            let mut shown = "第 ".to_string();
            shown.append(&text::decimal_text(self.line as u64));
            shown.append(" 行：");
            shown.append(&self.message);
            shown
        }
    }
}

/// Why a configuration file could not be used.
#[derive(Debug, Clone, PartialEq, Eq)]
pub enum LoadError {
    /// It could not be read, with the system's words.
    Io(String),
    Invalid(ConfigError),
}

impl LoadError {
    pub fn to_text(&self) -> (shown: String)
        ensures
            shown@ == (match *self {
                LoadError::Io(error) => "读取配置文件失败："@ + error@,
                LoadError::Invalid(error) => "配置文件无效："@ + config_error_text(
                    error.line as nat,
                    error.message@,
                ),
            }),
    {
        match self {
            LoadError::Io(error) => {
                let mut shown = "读取配置文件失败：".to_string();
                shown.append(error);
                shown
            },
            LoadError::Invalid(error) => {
                let mut shown = "配置文件无效：".to_string();
                shown.append(&error.to_text());
                shown
            },
        }
    }
}

/// What a key sets.
#[derive(Debug, Clone, Copy, PartialEq, Eq, Structural)]
pub enum Field {
    Servers,
    Account,
    Password,
    LocalIp,
    Mac,
    Hostname,
    Dns,
    Dhcp,
    ServerPort,
    LocalPort,
    AuthRoute,
}

/// What a key, in lower case, sets.
pub open spec fn field_of(key: Seq<char>) -> Option<Field> {
    if key == "auth_server"@ || key == "server"@ || key == "servers"@ || key == "server_list"@ {
        Some(Field::Servers)
    } else if key == "account"@ || key == "user"@ || key == "username"@ {
        Some(Field::Account)
    } else if key == "password"@ || key == "pass"@ {
        Some(Field::Password)
    } else if key == "local_ip"@ || key == "local-ip"@ || key == "ip"@ {
        Some(Field::LocalIp)
    } else if key == "mac"@ {
        Some(Field::Mac)
    } else if key == "hostname"@ || key == "host_name"@ || key == "host"@ {
        Some(Field::Hostname)
    } else if key == "dns"@ || key == "primary_dns"@ {
        Some(Field::Dns)
    } else if key == "dhcp"@ || key == "dhcp_server"@ {
        Some(Field::Dhcp)
    } else if key == "svr_port"@ || key == "server_port"@ || key == "port"@ {
        Some(Field::ServerPort)
    } else if key == "local_port"@ {
        Some(Field::LocalPort)
    } else if key == "auth_route"@ || key == "route"@ {
        Some(Field::AuthRoute)
    } else {
        None
    }
}

/// The addresses of the first `n` parts of a list, or the complaint about the first part that is
/// neither empty nor an address.
pub open spec fn addresses_of(parts: Seq<Seq<char>>, n: nat) -> Result<Seq<Ipv4Addr>, Seq<char>>
    decreases n,
{
    if n == 0 {
        Ok(Seq::empty())
    } else {
        match addresses_of(parts, (n - 1) as nat) {
            Err(message) => Err(message),
            Ok(before) => {
                let part = text::trimmed(parts[n - 1]);
                if part.len() == 0 {
                    Ok(before)
                } else {
                    match net::ipv4_of(part) {
                        Some(address) => Ok(before.push(address)),
                        None => Err("认证服务器地址无效："@ + part),
                    }
                }
            },
        }
    }
}

/// The addresses of a list that commas or white space separate.
pub open spec fn servers_of(value: Seq<char>) -> Result<Seq<Ipv4Addr>, Seq<char>> {
    let parts = text::split(value, text::Separator::CommaOrSpace);
    addresses_of(parts, parts.len())
}

/// The hexadecimal digits of a MAC address, with whatever stands between them left out.
pub open spec fn mac_digits(value: Seq<char>) -> Seq<char> {
    text::hex_digits_of(
        text::without_leading_pair(
            text::without_leading_pair(text::trimmed(value), '0', 'x'),
            '0',
            'X',
        ),
    )
}

/// The number of a MAC address. It is at most six bytes wide.
pub open spec fn mac_of(value: Seq<char>) -> Result<u64, Seq<char>> {
    let digits = mac_digits(value);
    if digits.len() == 0 {
        Err("mac 不能为空"@)
    } else if digits.len() > 12 {
        Err("mac 最多 12 位十六进制，当前 "@ + text::decimal(digits.len()))
    } else {
        Ok(text::hex_value(digits) as u64)
    }
}

/// A port, where zero is not always one.
pub open spec fn port_of(value: Seq<char>, field: Seq<char>, allow_zero: bool) -> Result<
    u16,
    Seq<char>,
> {
    match text::unsigned_of(text::trimmed(value), 65535) {
        None => Err(field + " 不是有效端口："@ + value),
        Some(port) => if port == 0 && !allow_zero {
            Err(field + " 不能为 0"@)
        } else {
            Ok(port as u16)
        },
    }
}

/// The route mode that a word names.
pub open spec fn route_mode_of(value: Seq<char>) -> Result<RouteMode, Seq<char>> {
    let word = text::ascii_lowered(text::trimmed(value));
    if word == "off"@ || word == "none"@ || word == "0"@ {
        Ok(RouteMode::Off)
    } else if word == "dry-run"@ || word == "dryrun"@ || word == "check"@ {
        Ok(RouteMode::DryRun)
    } else if word == "manage"@ || word == "on"@ || word == "1"@ {
        Ok(RouteMode::Manage)
    } else {
        Err("auth_route 只能是 off / dry-run / manage，当前 "@ + word)
    }
}

/// An address, or the complaint that a field's value is none.
pub open spec fn address_of(value: Seq<char>, field: Seq<char>) -> Result<Ipv4Addr, Seq<char>> {
    match net::ipv4_of(value) {
        Some(address) => Ok(address),
        None => Err(field + " 不是有效的 IPv4 地址："@ + value),
    }
}

/// The configuration after a field is set.
pub open spec fn assigned(config: ConfigView, field: Field, value: Seq<char>) -> Result<
    ConfigView,
    Seq<char>,
> {
    match field {
        Field::Servers => match servers_of(value) {
            Ok(servers) => Ok(ConfigView { servers: config.servers + servers, ..config }),
            Err(message) => Err(message),
        },
        Field::Account => Ok(ConfigView { account: value, ..config }),
        Field::Password => Ok(ConfigView { password: value, ..config }),
        Field::LocalIp => match address_of(value, "local_ip"@) {
            Ok(address) => Ok(ConfigView { local_ip: Some(address), ..config }),
            Err(message) => Err(message),
        },
        Field::Mac => match mac_of(value) {
            Ok(mac) => Ok(ConfigView { mac: Some(mac), ..config }),
            Err(message) => Err(message),
        },
        Field::Hostname => Ok(ConfigView { hostname: Some(value), ..config }),
        Field::Dns => match address_of(value, "dns"@) {
            Ok(address) => Ok(ConfigView { dns: Some(address), ..config }),
            Err(message) => Err(message),
        },
        Field::Dhcp => match address_of(value, "dhcp"@) {
            Ok(address) => Ok(ConfigView { dhcp: Some(address), ..config }),
            Err(message) => Err(message),
        },
        Field::ServerPort => match port_of(value, "svr_port"@, false) {
            Ok(port) => Ok(ConfigView { server_port: Some(port), ..config }),
            Err(message) => Err(message),
        },
        Field::LocalPort => match port_of(value, "local_port"@, true) {
            Ok(port) => Ok(ConfigView { local_port: Some(port), ..config }),
            Err(message) => Err(message),
        },
        Field::AuthRoute => match route_mode_of(value) {
            Ok(mode) => Ok(ConfigView { auth_route: Some(mode), ..config }),
            Err(message) => Err(message),
        },
    }
}

/// What stands on a line.
pub enum LineView {
    Nothing,
    Setting { key: Seq<char>, value: Seq<char> },
    Broken(Seq<char>),
}

/// What stands on a line. A byte-order mark in front of it does not count.
pub open spec fn line_of(raw: Seq<char>) -> LineView {
    let line = text::trimmed(text::without_leading(raw, '\u{feff}'));
    let at = text::first_separator(line, text::Separator::One('='));
    if line.len() == 0 || line[0] == ';' || line[0] == '#' {
        LineView::Nothing
    } else if line[0] == '[' {
        if line.last() == ']' {
            LineView::Nothing
        } else {
            LineView::Broken("节区标题缺少右括号"@)
        }
    } else if at == line.len() {
        LineView::Broken("缺少 “=”"@)
    } else {
        LineView::Setting {
            key: text::ascii_lowered(text::trimmed(line.take(at))),
            value: text::trimmed(line.skip(at + 1)),
        }
    }
}

/// The configuration after a line.
pub open spec fn after_line(config: ConfigView, raw: Seq<char>) -> Result<ConfigView, Seq<char>> {
    match line_of(raw) {
        LineView::Nothing => Ok(config),
        LineView::Broken(message) => Err(message),
        LineView::Setting { key, value } => match field_of(key) {
            Some(field) => assigned(config, field, value),
            None => Err("未知配置项 "@ + key),
        },
    }
}

/// A refused line and why.
pub struct ErrorView {
    pub line: nat,
    pub message: Seq<char>,
}

/// The configuration after the first `n` lines, or the first line that is refused.
pub open spec fn after_lines(lines: Seq<Seq<char>>, n: nat) -> Result<ConfigView, ErrorView>
    decreases n,
{
    if n == 0 {
        Ok(ConfigView::nothing())
    } else {
        match after_lines(lines, (n - 1) as nat) {
            Err(error) => Err(error),
            Ok(before) => match after_line(before, lines[n - 1]) {
                Ok(config) => Ok(config),
                Err(message) => Err(ErrorView { line: n, message }),
            },
        }
    }
}

/// The configuration that a text gives.
pub open spec fn config_of(text: Seq<char>) -> Result<ConfigView, ErrorView> {
    after_lines(text::lines(text), text::lines(text).len())
}

/// Why a configuration cannot log in, if it cannot.
pub open spec fn shortcoming(config: ConfigView) -> Option<Seq<char>> {
    let account = vstd::utf8::encode_utf8(config.account);
    let password = vstd::utf8::encode_utf8(config.password);
    if config.account.len() == 0 {
        Some("缺少 account（账号）"@)
    } else if config.password.len() == 0 {
        Some("缺少 password（密码）"@)
    } else if account.len() > ACCOUNT_FIELD_LEN {
        Some(
            "account 最多 "@ + text::decimal(ACCOUNT_FIELD_LEN as nat) + " 字节，当前 "@
                + text::decimal(account.len()),
        )
    } else if password.len() > MAX_PASSWORD_LEN {
        Some(
            "password 最多 "@ + text::decimal(MAX_PASSWORD_LEN as nat) + " 字节，当前 "@
                + text::decimal(password.len()),
        )
    } else if config.servers.len() == 0 {
        Some("缺少 auth_server（认证服务器）"@)
    } else {
        None
    }
}

/// The servers of a client: those of the file, else those of the environment, else the built-in
/// one.
pub open spec fn chosen_servers(servers: Seq<Ipv4Addr>, environment: Option<Seq<char>>) -> Seq<
    Ipv4Addr,
> {
    if servers.len() > 0 {
        servers
    } else {
        match environment {
            Some(value) => match servers_of(value) {
                Ok(listed) => if listed.len() > 0 {
                    listed
                } else {
                    seq![builtin_server()]
                },
                Err(_) => seq![builtin_server()],
            },
            None => seq![builtin_server()],
        }
    }
}

fn fail(line: usize, message: String) -> (error: ConfigError)
    ensures
        error.line == line,
        error.message == message,
{
    ConfigError { line, message }
}

impl ClientConfig {
    /// Checks what a session needs, so that a failure names the field.
    pub fn validate(&self) -> (result: Result<(), ConfigError>)
        ensures
            match result {
                Ok(()) => shortcoming(self@) is None,
                Err(error) => error.line == 0 && shortcoming(self@) == Some(error.message@),
            },
    {
        if self.account.as_str().is_empty() {
            return Err(fail(0, "缺少 account（账号）".to_string()));
        }
        if self.password.as_str().is_empty() {
            return Err(fail(0, "缺少 password（密码）".to_string()));
        }
        let account: usize = self.account.as_str().as_bytes().len();
        if account > ACCOUNT_FIELD_LEN {
            let mut message = "account 最多 ".to_string();
            message.append(&text::decimal_text(ACCOUNT_FIELD_LEN as u64));
            message.append(" 字节，当前 ");
            message.append(&text::decimal_text(account as u64));
            return Err(fail(0, message));
        }
        let password: usize = self.password.as_str().as_bytes().len();
        if password > MAX_PASSWORD_LEN {
            let mut message = "password 最多 ".to_string();
            message.append(&text::decimal_text(MAX_PASSWORD_LEN as u64));
            message.append(" 字节，当前 ");
            message.append(&text::decimal_text(password as u64));
            return Err(fail(0, message));
        }
        if self.servers.len() == 0 {
            return Err(fail(0, "缺少 auth_server（认证服务器）".to_string()));
        }
        Ok(())
    }

    /// The servers to use, given what the environment names.
    pub fn servers_or_env(&self, environment: Option<&str>) -> (servers: Vec<Ipv4Addr>)
        ensures
            servers@ == chosen_servers(
                self@.servers,
                match environment {
                    Some(value) => Some(value@),
                    None => None,
                },
            ),
            servers@.len() > 0,
    {
        if self.servers.len() > 0 {
            let mut servers: Vec<Ipv4Addr> = Vec::new();
            append_addresses(&mut servers, &self.servers);
            assert(servers@ =~= self.servers@);
            return servers;
        }
        if let Some(value) = environment {
            if let Ok(listed) = parse_servers(&text::chars_of(value)) {
                if listed.len() > 0 {
                    return listed;
                }
            }
        }
        let mut servers: Vec<Ipv4Addr> = Vec::new();
        servers.push(Ipv4Addr::new(10, 100, 61, 3));
        assert(servers@ =~= seq![builtin_server()]);
        servers
    }
}

fn append_addresses(out: &mut Vec<Ipv4Addr>, more: &Vec<Ipv4Addr>)
    ensures
        final(out)@ == old(out)@ + more@,
{
    let mut i: usize = 0;
    while i < more.len()
        invariant
            i <= more@.len(),
            out@ == old(out)@ + more@.take(i as int),
        decreases more@.len() - i,
    {
        out.push(more[i]);
        assert(more@.take(i + 1) =~= more@.take(i as int).push(more@[i as int]));
        i += 1;
    }
    assert(more@.take(more@.len() as int) =~= more@);
}

/// Reads a list of addresses that commas or white space separate.
pub fn parse_servers(value: &[char]) -> (result: Result<Vec<Ipv4Addr>, String>)
    ensures
        match result {
            Ok(servers) => servers_of(value@) == Ok::<Seq<Ipv4Addr>, Seq<char>>(servers@),
            Err(message) => servers_of(value@) == Err::<Seq<Ipv4Addr>, Seq<char>>(message@),
        },
{
    let parts = text::split_text(value, text::Separator::CommaOrSpace);
    let ghost views = text::char_views(parts@);
    let mut servers: Vec<Ipv4Addr> = Vec::new();
    let mut i: usize = 0;
    assert(servers@ =~= Seq::empty());
    while i < parts.len()
        invariant
            i <= parts@.len(),
            views == text::char_views(parts@),
            views == text::split(value@, text::Separator::CommaOrSpace),
            addresses_of(views, i as nat) == Ok::<Seq<Ipv4Addr>, Seq<char>>(servers@),
        decreases parts@.len() - i,
    {
        assert(views[i as int] == parts@[i as int]@);
        let part = text::trim(&parts[i]);
        if part.len() > 0 {
            match net::parse_ipv4(part) {
                Some(address) => {
                    servers.push(address);
                },
                None => {
                    let mut message = "认证服务器地址无效：".to_string();
                    message.append(&text::string_of(part));
                    proof {
                        assert(addresses_of(views, (i + 1) as nat) == Err::<
                            Seq<Ipv4Addr>,
                            Seq<char>,
                        >(message@));
                        lemma_address_error(views, (i + 1) as nat, views.len());
                    }
                    return Err(message);
                },
            }
        }
        i += 1;
    }
    assert(views.len() == parts@.len());
    Ok(servers)
}

proof fn lemma_address_error(parts: Seq<Seq<char>>, n: nat, m: nat)
    requires
        addresses_of(parts, n) is Err,
        n <= m,
    ensures
        addresses_of(parts, m) == addresses_of(parts, n),
    decreases m,
{
    if n < m {
        lemma_address_error(parts, n, (m - 1) as nat);
    }
}

/// Reads a MAC address.
pub fn parse_mac(value: &[char]) -> (result: Result<u64, String>)
    ensures
        match result {
            Ok(mac) => mac_of(value@) == Ok::<u64, Seq<char>>(mac) && mac < 0x1_0000_0000_0000,
            Err(message) => mac_of(value@) == Err::<u64, Seq<char>>(message@),
        },
{
    let bare = text::strip_leading_pair(
        text::strip_leading_pair(text::trim(value), '0', 'x'),
        '0',
        'X',
    );
    let digits = text::hex_digits_in(bare);
    if digits.len() == 0 {
        return Err("mac 不能为空".to_string());
    }
    if digits.len() > 12 {
        let mut message = "mac 最多 12 位十六进制，当前 ".to_string();
        message.append(&text::decimal_text(digits.len() as u64));
        return Err(message);
    }
    Ok(text::read_hex(&digits))
}

/// Reads a port.
pub fn parse_port(value: &[char], field: &str, allow_zero: bool) -> (result: Result<u16, String>)
    ensures
        match result {
            Ok(port) => port_of(value@, field@, allow_zero) == Ok::<u16, Seq<char>>(port),
            Err(message) => port_of(value@, field@, allow_zero) == Err::<u16, Seq<char>>(message@),
        },
{
    match text::parse_unsigned(text::trim(value), 65535) {
        None => {
            let mut message = field.to_string();
            message.append(" 不是有效端口：");
            message.append(&text::string_of(value));
            Err(message)
        },
        Some(port) => {
            if port == 0 && !allow_zero {
                let mut message = field.to_string();
                message.append(" 不能为 0");
                return Err(message);
            }
            Ok(port as u16)
        },
    }
}

/// Reads a route mode.
pub fn parse_route_mode(value: &[char]) -> (result: Result<RouteMode, String>)
    ensures
        match result {
            Ok(mode) => route_mode_of(value@) == Ok::<RouteMode, Seq<char>>(mode),
            Err(message) => route_mode_of(value@) == Err::<RouteMode, Seq<char>>(message@),
        },
{
    let word = text::lower_ascii(text::trim(value));
    if text::reads(&word, "off") || text::reads(&word, "none") || text::reads(&word, "0") {
        Ok(RouteMode::Off)
    } else if text::reads(&word, "dry-run") || text::reads(&word, "dryrun") || text::reads(
        &word,
        "check",
    ) {
        Ok(RouteMode::DryRun)
    } else if text::reads(&word, "manage") || text::reads(&word, "on") || text::reads(&word, "1") {
        Ok(RouteMode::Manage)
    } else {
        let mut message = "auth_route 只能是 off / dry-run / manage，当前 ".to_string();
        message.append(&text::string_of(&word));
        Err(message)
    }
}

fn parse_address(value: &[char], field: &str) -> (result: Result<Ipv4Addr, String>)
    ensures
        match result {
            Ok(address) => address_of(value@, field@) == Ok::<Ipv4Addr, Seq<char>>(address),
            Err(message) => address_of(value@, field@) == Err::<Ipv4Addr, Seq<char>>(message@),
        },
{
    match net::parse_ipv4(value) {
        Some(address) => Ok(address),
        None => {
            let mut message = field.to_string();
            message.append(" 不是有效的 IPv4 地址：");
            message.append(&text::string_of(value));
            Err(message)
        },
    }
}

fn read_field(key: &[char]) -> (field: Option<Field>)
    ensures
        field == field_of(key@),
{
    if text::reads(key, "auth_server") || text::reads(key, "server") || text::reads(key, "servers")
        || text::reads(key, "server_list") {
        Some(Field::Servers)
    } else if text::reads(key, "account") || text::reads(key, "user") || text::reads(
        key,
        "username",
    ) {
        Some(Field::Account)
    } else if text::reads(key, "password") || text::reads(key, "pass") {
        Some(Field::Password)
    } else if text::reads(key, "local_ip") || text::reads(key, "local-ip") || text::reads(
        key,
        "ip",
    ) {
        Some(Field::LocalIp)
    } else if text::reads(key, "mac") {
        Some(Field::Mac)
    } else if text::reads(key, "hostname") || text::reads(key, "host_name") || text::reads(
        key,
        "host",
    ) {
        Some(Field::Hostname)
    } else if text::reads(key, "dns") || text::reads(key, "primary_dns") {
        Some(Field::Dns)
    } else if text::reads(key, "dhcp") || text::reads(key, "dhcp_server") {
        Some(Field::Dhcp)
    } else if text::reads(key, "svr_port") || text::reads(key, "server_port") || text::reads(
        key,
        "port",
    ) {
        Some(Field::ServerPort)
    } else if text::reads(key, "local_port") {
        Some(Field::LocalPort)
    } else if text::reads(key, "auth_route") || text::reads(key, "route") {
        Some(Field::AuthRoute)
    } else {
        None
    }
}

fn assign(config: &mut ClientConfig, field: Field, value: &[char]) -> (result: Result<(), String>)
    ensures
        match result {
            Ok(()) => assigned(old(config)@, field, value@) == Ok::<ConfigView, Seq<char>>(
                final(config)@,
            ),
            Err(message) => assigned(old(config)@, field, value@) == Err::<ConfigView, Seq<char>>(
                message@,
            ),
        },
{
    match field {
        Field::Servers => match parse_servers(value) {
            Ok(servers) => {
                append_addresses(&mut config.servers, &servers);
            },
            Err(message) => return Err(message),
        },
        Field::Account => {
            config.account = text::string_of(value);
        },
        Field::Password => {
            config.password = text::string_of(value);
        },
        Field::LocalIp => match parse_address(value, "local_ip") {
            Ok(address) => {
                config.local_ip = Some(address);
            },
            Err(message) => return Err(message),
        },
        Field::Mac => match parse_mac(value) {
            Ok(mac) => {
                config.mac = Some(mac);
            },
            Err(message) => return Err(message),
        },
        Field::Hostname => {
            config.hostname = Some(text::string_of(value));
        },
        Field::Dns => match parse_address(value, "dns") {
            Ok(address) => {
                config.dns = Some(address);
            },
            Err(message) => return Err(message),
        },
        Field::Dhcp => match parse_address(value, "dhcp") {
            Ok(address) => {
                config.dhcp = Some(address);
            },
            Err(message) => return Err(message),
        },
        Field::ServerPort => match parse_port(value, "svr_port", false) {
            Ok(port) => {
                config.server_port = Some(port);
            },
            Err(message) => return Err(message),
        },
        Field::LocalPort => match parse_port(value, "local_port", true) {
            Ok(port) => {
                config.local_port = Some(port);
            },
            Err(message) => return Err(message),
        },
        Field::AuthRoute => match parse_route_mode(value) {
            Ok(mode) => {
                config.auth_route = Some(mode);
            },
            Err(message) => return Err(message),
        },
    }
    Ok(())
}

fn read_line(config: &mut ClientConfig, raw: &[char]) -> (result: Result<(), String>)
    ensures
        match result {
            Ok(()) => after_line(old(config)@, raw@) == Ok::<ConfigView, Seq<char>>(final(config)@),
            Err(message) => after_line(old(config)@, raw@) == Err::<ConfigView, Seq<char>>(
                message@,
            ),
        },
{
    let line = text::trim(text::strip_leading(raw, '\u{feff}'));
    let len: usize = line.len();
    if len == 0 || line[0] == ';' || line[0] == '#' {
        return Ok(());
    }
    if line[0] == '[' {
        if line[len - 1] == ']' {
            return Ok(());
        }
        return Err("节区标题缺少右括号".to_string());
    }
    let at: usize = text::find_separator(line, text::Separator::One('='));
    if at == len {
        return Err("缺少 “=”".to_string());
    }
    assert(line@.subrange(0, at as int) =~= line@.take(at as int));
    assert(line@.subrange(at + 1, len as int) =~= line@.skip(at + 1));
    let key = text::lower_ascii(text::trim(vstd::slice::slice_subrange(line, 0, at)));
    let value = text::trim(vstd::slice::slice_subrange(line, at + 1, len));
    match read_field(&key) {
        Some(field) => assign(config, field, value),
        None => {
            let mut message = "未知配置项 ".to_string();
            message.append(&text::string_of(&key));
            Err(message)
        },
    }
}

proof fn lemma_line_error(lines: Seq<Seq<char>>, n: nat, m: nat)
    requires
        after_lines(lines, n) is Err,
        n <= m,
    ensures
        after_lines(lines, m) == after_lines(lines, n),
    decreases m,
{
    if n < m {
        lemma_line_error(lines, n, (m - 1) as nat);
    }
}

/// Reads configuration text.
pub fn parse(text: &str) -> (result: Result<ClientConfig, ConfigError>)
    ensures
        match result {
            Ok(config) => config_of(text@) == Ok::<ConfigView, ErrorView>(config@),
            Err(error) => config_of(text@) == Err::<ConfigView, ErrorView>(
                (ErrorView { line: error.line as nat, message: error.message@ }),
            ),
        },
{
    let lines = text::split_lines(&text::chars_of(text));
    let ghost views = text::char_views(lines@);
    let count: usize = lines.len();
    let mut config = ClientConfig::default();
    let mut i: usize = 0;
    while i < count
        invariant
            count == lines@.len(),
            i <= count,
            views == text::char_views(lines@),
            views == text::lines(text@),
            after_lines(views, i as nat) == Ok::<ConfigView, ErrorView>(config@),
        decreases count - i,
    {
        assert(views[i as int] == lines@[i as int]@);
        match read_line(&mut config, &lines[i]) {
            Ok(()) => {},
            Err(message) => {
                proof {
                    assert(after_lines(views, (i + 1) as nat) == Err::<ConfigView, ErrorView>(
                        ErrorView { line: (i + 1) as nat, message: message@ },
                    ));
                    lemma_line_error(views, (i + 1) as nat, views.len());
                }
                return Err(fail(i + 1, message));
            },
        }
        i += 1;
    }
    assert(views.len() == lines@.len());
    Ok(config)
}

/// What a configuration file holds, given what came of reading it: its text, or the system's words
/// on why it could not be read.
pub fn load(file: Result<String, String>) -> (result: Result<ClientConfig, LoadError>)
    ensures
        match file {
            Ok(text) => match result {
                Ok(config) => config_of(text@) == Ok::<ConfigView, ErrorView>(config@),
                Err(LoadError::Invalid(error)) => config_of(text@) == Err::<ConfigView, ErrorView>(
                    (ErrorView { line: error.line as nat, message: error.message@ }),
                ),
                Err(LoadError::Io(_)) => false,
            },
            Err(reason) => result == Err::<ClientConfig, LoadError>(LoadError::Io(reason)),
        },
{
    match file {
        Ok(text) => match parse(&text) {
            Ok(config) => Ok(config),
            Err(error) => Err(LoadError::Invalid(error)),
        },
        Err(reason) => Err(LoadError::Io(reason)),
    }
}

/// Where a configuration file is looked for, in the order of the search.
#[derive(Debug, Clone, Copy, PartialEq, Eq, Structural)]
pub enum Place {
    /// Next to the program.
    Program,
    /// In the working directory.
    WorkingDirectory,
    /// In the client's directory below the user's application data.
    UserData,
}

/// The place of the configuration file, given where there is one: the search stops at the first,
/// so a copy of the user's own counts only where there is no other. Without any the client is
/// driven by its flags.
pub fn discover(program: bool, working_directory: bool, user_data: bool) -> (found: Option<Place>)
    ensures
        found == Some(Place::Program) <==> program,
        found == Some(Place::WorkingDirectory) <==> !program && working_directory,
        found == Some(Place::UserData) <==> !program && !working_directory && user_data,
        found is None <==> !program && !working_directory && !user_data,
{
    if program {
        Some(Place::Program)
    } else if working_directory {
        Some(Place::WorkingDirectory)
    } else if user_data {
        Some(Place::UserData)
    } else {
        None
    }
}

/// A refused line is one of the text's lines, and the lines before it were all accepted.
pub proof fn law_an_error_names_the_first_bad_line(text: Seq<char>)
    requires
        config_of(text) is Err,
    ensures
        ({
            let line = config_of(text)->Err_0.line;
            &&& 1 <= line <= text::lines(text).len()
            &&& after_lines(text::lines(text), (line - 1) as nat) is Ok
            &&& after_lines(text::lines(text), line) is Err
        }),
{
    lemma_first_error(text::lines(text), text::lines(text).len());
}

proof fn lemma_first_error(lines: Seq<Seq<char>>, n: nat)
    requires
        after_lines(lines, n) is Err,
    ensures
        1 <= after_lines(lines, n)->Err_0.line <= n,
        after_lines(lines, (after_lines(lines, n)->Err_0.line - 1) as nat) is Ok,
        after_lines(lines, after_lines(lines, n)->Err_0.line) is Err,
    decreases n,
{
    if after_lines(lines, (n - 1) as nat) is Err {
        lemma_first_error(lines, (n - 1) as nat);
    }
}

/// Several server lines add up, in the order of the file.
pub proof fn law_server_lines_add_up(config: ConfigView, value: Seq<char>)
    requires
        servers_of(value) is Ok,
    ensures
        assigned(config, Field::Servers, value) == Ok::<ConfigView, Seq<char>>(
            (ConfigView { servers: config.servers + servers_of(value)->Ok_0, ..config }),
        ),
{
}

/// The field that a line sets.
pub open spec fn field_on(raw: Seq<char>) -> Option<Field> {
    match line_of(raw) {
        LineView::Setting { key, value } => field_of(key),
        _ => None,
    }
}

/// Whether one of the first `n` lines sets a field, be it to nothing.
pub open spec fn sets(lines: Seq<Seq<char>>, n: nat, field: Field) -> bool {
    exists|i: int| 0 <= i < n && #[trigger] field_on(lines[i]) == Some(field)
}

/// What was set last.
pub open spec fn newest<T>(earlier: Option<T>, later: Option<T>) -> Option<T> {
    if later is Some {
        later
    } else {
        earlier
    }
}

/// What `later` sets in place of what `earlier` set; of what may be set to nothing it is told
/// whether `later` sets it. Servers are added.
pub open spec fn overlaid(
    earlier: ConfigView,
    later: ConfigView,
    account: bool,
    password: bool,
) -> ConfigView {
    ConfigView {
        servers: earlier.servers + later.servers,
        account: if account {
            later.account
        } else {
            earlier.account
        },
        password: if password {
            later.password
        } else {
            earlier.password
        },
        local_ip: newest(earlier.local_ip, later.local_ip),
        mac: newest(earlier.mac, later.mac),
        hostname: newest(earlier.hostname, later.hostname),
        dns: newest(earlier.dns, later.dns),
        dhcp: newest(earlier.dhcp, later.dhcp),
        server_port: newest(earlier.server_port, later.server_port),
        local_port: newest(earlier.local_port, later.local_port),
        auth_route: newest(earlier.auth_route, later.auth_route),
    }
}

/// A text can be read in two parts, where the first ends with a line feed: servers add up, what
/// the second part sets wins, and an error in it is that of the second part alone, its line
/// counted on from the lines of the first.
pub proof fn law_a_text_can_be_read_in_parts(first: Seq<char>, second: Seq<char>)
    requires
        first.len() == 0 || first.last() == '\n',
    ensures
        ({
            let count = text::lines(first).len();
            let more = text::lines(second);
            config_of(first + second) == (match config_of(first) {
                Err(error) => Err::<ConfigView, ErrorView>(error),
                Ok(earlier) => match config_of(second) {
                    Err(error) => Err::<ConfigView, ErrorView>(
                        ErrorView { line: count + error.line, message: error.message },
                    ),
                    Ok(later) => Ok::<ConfigView, ErrorView>(
                        overlaid(
                            earlier,
                            later,
                            sets(more, more.len(), Field::Account),
                            sets(more, more.len(), Field::Password),
                        ),
                    ),
                },
            })
        }),
{
    text::law_lines_add_up(first, second);
    let head = text::lines(first);
    let more = text::lines(second);
    lemma_same_beginning(head, more, head.len());
    if config_of(first) is Err {
        lemma_line_error(head + more, head.len(), (head + more).len());
    } else {
        lemma_read_on(head, more, more.len());
    }
}

proof fn lemma_same_beginning(head: Seq<Seq<char>>, more: Seq<Seq<char>>, n: nat)
    requires
        n <= head.len(),
    ensures
        after_lines(head + more, n) == after_lines(head, n),
    decreases n,
{
    if n > 0 {
        lemma_same_beginning(head, more, (n - 1) as nat);
        assert((head + more)[n - 1] == head[n - 1]);
    }
}

proof fn lemma_read_on(head: Seq<Seq<char>>, more: Seq<Seq<char>>, n: nat)
    requires
        n <= more.len(),
        after_lines(head, head.len()) is Ok,
    ensures
        after_lines(head + more, head.len() + n) == (match after_lines(more, n) {
            Err(error) => Err::<ConfigView, ErrorView>(
                ErrorView { line: head.len() + error.line, message: error.message },
            ),
            Ok(later) => Ok::<ConfigView, ErrorView>(
                overlaid(
                    after_lines(head, head.len())->Ok_0,
                    later,
                    sets(more, n, Field::Account),
                    sets(more, n, Field::Password),
                ),
            ),
        }),
    decreases n,
{
    let earlier = after_lines(head, head.len())->Ok_0;
    if n == 0 {
        lemma_same_beginning(head, more, head.len());
        assert(earlier.servers + Seq::<Ipv4Addr>::empty() =~= earlier.servers);
    } else {
        let before = (n - 1) as nat;
        let raw = more[n - 1];
        lemma_read_on(head, more, before);
        assert((head + more)[head.len() + n - 1] == raw);
        assert((head.len() + n - 1) as nat == head.len() + before);
        lemma_sets(more, n, Field::Account);
        lemma_sets(more, n, Field::Password);
        if after_lines(more, before) is Ok {
            lemma_overlaid(
                earlier,
                after_lines(more, before)->Ok_0,
                sets(more, before, Field::Account),
                sets(more, before, Field::Password),
                raw,
            );
        }
    }
}

proof fn lemma_sets(lines: Seq<Seq<char>>, n: nat, field: Field)
    requires
        0 < n <= lines.len(),
    ensures
        sets(lines, n, field) == (sets(lines, (n - 1) as nat, field) || field_on(lines[n - 1])
            == Some(field)),
{
    if sets(lines, n, field) {
        let i = choose|i: int| 0 <= i < n && #[trigger] field_on(lines[i]) == Some(field);
        assert(i < n - 1 || i == n - 1);
    }
    if sets(lines, (n - 1) as nat, field) {
        let i = choose|i: int| 0 <= i < n - 1 && #[trigger] field_on(lines[i]) == Some(field);
        assert(field_on(lines[i]) == Some(field));
    }
}

proof fn lemma_overlaid(
    earlier: ConfigView,
    later: ConfigView,
    account: bool,
    password: bool,
    raw: Seq<char>,
)
    ensures
        after_line(overlaid(earlier, later, account, password), raw) == (match after_line(
            later,
            raw,
        ) {
            Err(message) => Err::<ConfigView, Seq<char>>(message),
            Ok(next) => Ok::<ConfigView, Seq<char>>(
                overlaid(
                    earlier,
                    next,
                    account || field_on(raw) == Some(Field::Account),
                    password || field_on(raw) == Some(Field::Password),
                ),
            ),
        }),
{
    match line_of(raw) {
        LineView::Setting { key, value } => match field_of(key) {
            Some(field) => lemma_overlaid_field(earlier, later, account, password, field, value),
            None => {},
        },
        _ => {},
    }
}

#[verifier::rlimit(30)]
proof fn lemma_overlaid_field(
    earlier: ConfigView,
    later: ConfigView,
    account: bool,
    password: bool,
    field: Field,
    value: Seq<char>,
)
    ensures
        assigned(overlaid(earlier, later, account, password), field, value) == (match assigned(
            later,
            field,
            value,
        ) {
            Err(message) => Err::<ConfigView, Seq<char>>(message),
            Ok(next) => Ok::<ConfigView, Seq<char>>(
                overlaid(
                    earlier,
                    next,
                    account || field == Field::Account,
                    password || field == Field::Password,
                ),
            ),
        }),
{
    match field {
        Field::Servers => {
            if servers_of(value) is Ok {
                let listed = servers_of(value)->Ok_0;
                assert(earlier.servers + later.servers + listed =~= earlier.servers + (later.servers
                    + listed));
            }
        },
        Field::Account | Field::Password | Field::Hostname => {},
        Field::LocalIp | Field::Dns | Field::Dhcp => {},
        Field::Mac => {},
        Field::ServerPort | Field::LocalPort => {},
        Field::AuthRoute => {},
    }
}

/// A configuration that passes validation gives credentials that a login frame can hold.
pub proof fn law_a_valid_configuration_fits_the_frame(config: ConfigView)
    requires
        shortcoming(config) is None,
    ensures
        vstd::utf8::encode_utf8(config.account).len() <= ACCOUNT_FIELD_LEN,
        vstd::utf8::encode_utf8(config.password).len() <= MAX_PASSWORD_LEN,
        config.servers.len() > 0,
{
}

/// There is always a server to use, and one from the file always comes first.
pub proof fn law_the_file_wins_over_the_environment(
    servers: Seq<Ipv4Addr>,
    environment: Option<Seq<char>>,
)
    ensures
        chosen_servers(servers, environment).len() > 0,
        servers.len() > 0 ==> chosen_servers(servers, environment) == servers,
{
}

/// The keys of the configuration file, with what each sets.
pub proof fn law_the_keys_of_the_file()
    ensures
        field_of("auth_server"@) == Some(Field::Servers),
        field_of("server"@) == Some(Field::Servers),
        field_of("servers"@) == Some(Field::Servers),
        field_of("server_list"@) == Some(Field::Servers),
        field_of("account"@) == Some(Field::Account),
        field_of("user"@) == Some(Field::Account),
        field_of("username"@) == Some(Field::Account),
        field_of("password"@) == Some(Field::Password),
        field_of("pass"@) == Some(Field::Password),
        field_of("local_ip"@) == Some(Field::LocalIp),
        field_of("local-ip"@) == Some(Field::LocalIp),
        field_of("ip"@) == Some(Field::LocalIp),
        field_of("mac"@) == Some(Field::Mac),
        field_of("hostname"@) == Some(Field::Hostname),
        field_of("host_name"@) == Some(Field::Hostname),
        field_of("host"@) == Some(Field::Hostname),
        field_of("dns"@) == Some(Field::Dns),
        field_of("primary_dns"@) == Some(Field::Dns),
        field_of("dhcp"@) == Some(Field::Dhcp),
        field_of("dhcp_server"@) == Some(Field::Dhcp),
        field_of("svr_port"@) == Some(Field::ServerPort),
        field_of("server_port"@) == Some(Field::ServerPort),
        field_of("port"@) == Some(Field::ServerPort),
        field_of("local_port"@) == Some(Field::LocalPort),
        field_of("auth_route"@) == Some(Field::AuthRoute),
        field_of("route"@) == Some(Field::AuthRoute),
{
    lemma_key_lengths();
    lemma_keys_differ();
}

proof fn lemma_key_lengths()
    ensures
        "auth_server"@.len() == 11,
        "server"@.len() == 6,
        "servers"@.len() == 7,
        "server_list"@.len() == 11,
        "account"@.len() == 7,
        "user"@.len() == 4,
        "username"@.len() == 8,
        "password"@.len() == 8,
        "pass"@.len() == 4,
        "local_ip"@.len() == 8,
        "local-ip"@.len() == 8,
        "ip"@.len() == 2,
        "mac"@.len() == 3,
        "hostname"@.len() == 8,
        "host_name"@.len() == 9,
        "host"@.len() == 4,
        "dns"@.len() == 3,
        "primary_dns"@.len() == 11,
        "dhcp"@.len() == 4,
        "dhcp_server"@.len() == 11,
        "svr_port"@.len() == 8,
        "server_port"@.len() == 11,
        "port"@.len() == 4,
        "local_port"@.len() == 10,
        "auth_route"@.len() == 10,
        "route"@.len() == 5,
{
    reveal_strlit("auth_server");
    reveal_strlit("server");
    reveal_strlit("servers");
    reveal_strlit("server_list");
    reveal_strlit("account");
    reveal_strlit("user");
    reveal_strlit("username");
    reveal_strlit("password");
    reveal_strlit("pass");
    reveal_strlit("local_ip");
    reveal_strlit("local-ip");
    reveal_strlit("ip");
    reveal_strlit("mac");
    reveal_strlit("hostname");
    reveal_strlit("host_name");
    reveal_strlit("host");
    reveal_strlit("dns");
    reveal_strlit("primary_dns");
    reveal_strlit("dhcp");
    reveal_strlit("dhcp_server");
    reveal_strlit("svr_port");
    reveal_strlit("server_port");
    reveal_strlit("port");
    reveal_strlit("local_port");
    reveal_strlit("auth_route");
    reveal_strlit("route");
}

proof fn lemma_keys_differ()
    ensures
        "account"@ != "servers"@,
        "password"@ != "username"@,
        "pass"@ != "user"@,
        "local_ip"@ != "username"@,
        "local_ip"@ != "password"@,
        "local-ip"@ != "username"@,
        "local-ip"@ != "password"@,
        "hostname"@ != "username"@,
        "hostname"@ != "password"@,
        "hostname"@ != "local_ip"@,
        "hostname"@ != "local-ip"@,
        "host"@ != "user"@,
        "host"@ != "pass"@,
        "dns"@ != "mac"@,
        "primary_dns"@ != "auth_server"@,
        "primary_dns"@ != "server_list"@,
        "dhcp"@ != "user"@,
        "dhcp"@ != "pass"@,
        "dhcp"@ != "host"@,
        "dhcp_server"@ != "auth_server"@,
        "dhcp_server"@ != "server_list"@,
        "dhcp_server"@ != "primary_dns"@,
        "svr_port"@ != "username"@,
        "svr_port"@ != "password"@,
        "svr_port"@ != "local_ip"@,
        "svr_port"@ != "local-ip"@,
        "svr_port"@ != "hostname"@,
        "server_port"@ != "auth_server"@,
        "server_port"@ != "server_list"@,
        "server_port"@ != "primary_dns"@,
        "server_port"@ != "dhcp_server"@,
        "port"@ != "user"@,
        "port"@ != "pass"@,
        "port"@ != "host"@,
        "port"@ != "dhcp"@,
        "auth_route"@ != "local_port"@,
{
    assert("account"@ != "servers"@) by {
        reveal_strlit("account");
        reveal_strlit("servers");
        assert("account"@[0] != "servers"@[0]);
    }
    assert("password"@ != "username"@) by {
        reveal_strlit("password");
        reveal_strlit("username");
        assert("password"@[0] != "username"@[0]);
    }
    assert("pass"@ != "user"@) by {
        reveal_strlit("pass");
        reveal_strlit("user");
        assert("pass"@[0] != "user"@[0]);
    }
    assert("local_ip"@ != "username"@) by {
        reveal_strlit("local_ip");
        reveal_strlit("username");
        assert("local_ip"@[0] != "username"@[0]);
    }
    assert("local_ip"@ != "password"@) by {
        reveal_strlit("local_ip");
        reveal_strlit("password");
        assert("local_ip"@[0] != "password"@[0]);
    }
    assert("local-ip"@ != "username"@) by {
        reveal_strlit("local-ip");
        reveal_strlit("username");
        assert("local-ip"@[0] != "username"@[0]);
    }
    assert("local-ip"@ != "password"@) by {
        reveal_strlit("local-ip");
        reveal_strlit("password");
        assert("local-ip"@[0] != "password"@[0]);
    }
    assert("hostname"@ != "username"@) by {
        reveal_strlit("hostname");
        reveal_strlit("username");
        assert("hostname"@[0] != "username"@[0]);
    }
    assert("hostname"@ != "password"@) by {
        reveal_strlit("hostname");
        reveal_strlit("password");
        assert("hostname"@[0] != "password"@[0]);
    }
    assert("hostname"@ != "local_ip"@) by {
        reveal_strlit("hostname");
        reveal_strlit("local_ip");
        assert("hostname"@[0] != "local_ip"@[0]);
    }
    assert("hostname"@ != "local-ip"@) by {
        reveal_strlit("hostname");
        reveal_strlit("local-ip");
        assert("hostname"@[0] != "local-ip"@[0]);
    }
    assert("host"@ != "user"@) by {
        reveal_strlit("host");
        reveal_strlit("user");
        assert("host"@[0] != "user"@[0]);
    }
    assert("host"@ != "pass"@) by {
        reveal_strlit("host");
        reveal_strlit("pass");
        assert("host"@[0] != "pass"@[0]);
    }
    assert("dns"@ != "mac"@) by {
        reveal_strlit("dns");
        reveal_strlit("mac");
        assert("dns"@[0] != "mac"@[0]);
    }
    assert("primary_dns"@ != "auth_server"@) by {
        reveal_strlit("primary_dns");
        reveal_strlit("auth_server");
        assert("primary_dns"@[0] != "auth_server"@[0]);
    }
    assert("primary_dns"@ != "server_list"@) by {
        reveal_strlit("primary_dns");
        reveal_strlit("server_list");
        assert("primary_dns"@[0] != "server_list"@[0]);
    }
    assert("dhcp"@ != "user"@) by {
        reveal_strlit("dhcp");
        reveal_strlit("user");
        assert("dhcp"@[0] != "user"@[0]);
    }
    assert("dhcp"@ != "pass"@) by {
        reveal_strlit("dhcp");
        reveal_strlit("pass");
        assert("dhcp"@[0] != "pass"@[0]);
    }
    assert("dhcp"@ != "host"@) by {
        reveal_strlit("dhcp");
        reveal_strlit("host");
        assert("dhcp"@[0] != "host"@[0]);
    }
    assert("dhcp_server"@ != "auth_server"@) by {
        reveal_strlit("dhcp_server");
        reveal_strlit("auth_server");
        assert("dhcp_server"@[0] != "auth_server"@[0]);
    }
    assert("dhcp_server"@ != "server_list"@) by {
        reveal_strlit("dhcp_server");
        reveal_strlit("server_list");
        assert("dhcp_server"@[0] != "server_list"@[0]);
    }
    assert("dhcp_server"@ != "primary_dns"@) by {
        reveal_strlit("dhcp_server");
        reveal_strlit("primary_dns");
        assert("dhcp_server"@[0] != "primary_dns"@[0]);
    }
    assert("svr_port"@ != "username"@) by {
        reveal_strlit("svr_port");
        reveal_strlit("username");
        assert("svr_port"@[0] != "username"@[0]);
    }
    assert("svr_port"@ != "password"@) by {
        reveal_strlit("svr_port");
        reveal_strlit("password");
        assert("svr_port"@[0] != "password"@[0]);
    }
    assert("svr_port"@ != "local_ip"@) by {
        reveal_strlit("svr_port");
        reveal_strlit("local_ip");
        assert("svr_port"@[0] != "local_ip"@[0]);
    }
    assert("svr_port"@ != "local-ip"@) by {
        reveal_strlit("svr_port");
        reveal_strlit("local-ip");
        assert("svr_port"@[0] != "local-ip"@[0]);
    }
    assert("svr_port"@ != "hostname"@) by {
        reveal_strlit("svr_port");
        reveal_strlit("hostname");
        assert("svr_port"@[0] != "hostname"@[0]);
    }
    assert("server_port"@ != "auth_server"@) by {
        reveal_strlit("server_port");
        reveal_strlit("auth_server");
        assert("server_port"@[0] != "auth_server"@[0]);
    }
    assert("server_port"@ != "server_list"@) by {
        reveal_strlit("server_port");
        reveal_strlit("server_list");
        assert("server_port"@[7] != "server_list"@[7]);
    }
    assert("server_port"@ != "primary_dns"@) by {
        reveal_strlit("server_port");
        reveal_strlit("primary_dns");
        assert("server_port"@[0] != "primary_dns"@[0]);
    }
    assert("server_port"@ != "dhcp_server"@) by {
        reveal_strlit("server_port");
        reveal_strlit("dhcp_server");
        assert("server_port"@[0] != "dhcp_server"@[0]);
    }
    assert("port"@ != "user"@) by {
        reveal_strlit("port");
        reveal_strlit("user");
        assert("port"@[0] != "user"@[0]);
    }
    assert("port"@ != "pass"@) by {
        reveal_strlit("port");
        reveal_strlit("pass");
        assert("port"@[1] != "pass"@[1]);
    }
    assert("port"@ != "host"@) by {
        reveal_strlit("port");
        reveal_strlit("host");
        assert("port"@[0] != "host"@[0]);
    }
    assert("port"@ != "dhcp"@) by {
        reveal_strlit("port");
        reveal_strlit("dhcp");
        assert("port"@[0] != "dhcp"@[0]);
    }
    assert("auth_route"@ != "local_port"@) by {
        reveal_strlit("auth_route");
        reveal_strlit("local_port");
        assert("auth_route"@[0] != "local_port"@[0]);
    }
}

/// A value runs to the end of its line and is taken as it stands: whatever characters it holds, only
/// the white space at its two ends does not belong to it. The key before the first `=` counts
/// without the white space around it, its capital letters in lower case.
pub proof fn law_a_value_is_taken_as_it_stands(
    before: Seq<char>,
    key: Seq<char>,
    gap: Seq<char>,
    lead: Seq<char>,
    value: Seq<char>,
    after: Seq<char>,
)
    requires
        text::all_spaces(before),
        text::all_spaces(gap),
        text::all_spaces(lead),
        text::all_spaces(after),
        key.len() > 0,
        text::is_bare(key),
        text::is_bare(value),
        forall|i: int| 0 <= i < key.len() ==> #[trigger] key[i] != '=',
        key[0] != ';' && key[0] != '#' && key[0] != '[' && key[0] != '\u{feff}',
    ensures
        line_of(before + key + gap + seq!['='] + lead + value + after) == (LineView::Setting {
            key: text::ascii_lowered(key),
            value,
        }),
{
    let raw = before + key + gap + seq!['='] + lead + value + after;
    let start = key + gap + seq!['='];
    let core = if value.len() > 0 {
        start + lead + value
    } else {
        start
    };
    let rest = if value.len() > 0 {
        after
    } else {
        lead + after
    };
    assert(text::all_spaces(rest)) by {
        assert forall|i: int| 0 <= i < rest.len() implies text::is_space(#[trigger] rest[i]) by {
            if value.len() > 0 {
                assert(rest[i] == after[i]);
            } else if i < lead.len() {
                assert(rest[i] == lead[i]);
            } else {
                assert(rest[i] == after[i - lead.len()]);
            }
        }
    }
    assert(raw =~= before + core + rest);
    assert(raw[0] == (if before.len() > 0 {
        before[0]
    } else {
        key[0]
    }));
    assert(text::without_leading(raw, '\u{feff}') == raw) by {
        if before.len() > 0 {
            assert(text::is_space(before[0]));
        }
    }
    assert(core[0] == key[0]);
    assert(core.last() == (if value.len() > 0 {
        value.last()
    } else {
        '='
    }));
    text::law_trimming_keeps_what_stands_between(before, core, rest);
    let at = key.len() + gap.len();
    let mark = text::Separator::One('=');
    assert forall|i: int| 0 <= i < at implies !text::separates(mark, #[trigger] core[i]) by {
        if i < key.len() {
            assert(core[i] == key[i]);
        } else {
            assert(core[i] == gap[i - key.len()]);
            assert(text::is_space(gap[i - key.len()]));
        }
    }
    assert(core[at as int] == '=');
    text::lemma_first_separator(core, mark, at as int);
    assert(core.take(at as int) =~= Seq::<char>::empty() + key + gap);
    text::law_trimming_keeps_what_stands_between(Seq::empty(), key, gap);
    if value.len() > 0 {
        assert(core.skip(at as int + 1) =~= lead + value + Seq::<char>::empty());
        text::law_trimming_keeps_what_stands_between(lead, value, Seq::empty());
    } else {
        assert(core.skip(at as int + 1) =~= Seq::<char>::empty());
        text::law_trimming_keeps_what_stands_between(Seq::empty(), value, Seq::empty());
        assert(Seq::<char>::empty() + value + Seq::<char>::empty() =~= Seq::<char>::empty());
    }
}

/// What stands on a line that sets nothing: a blank one, a comment, a section in brackets. A bracket
/// that is not closed and a line without `=` are errors.
pub proof fn law_what_sets_nothing(before: Seq<char>, core: Seq<char>, after: Seq<char>)
    requires
        text::all_spaces(before),
        text::all_spaces(after),
        text::is_bare(core),
        core.len() > 0 ==> core[0] != '\u{feff}',
    ensures
        ({
            let line = line_of(before + core + after);
            &&& core.len() == 0 ==> line is Nothing
            &&& core.len() > 0 && (core[0] == ';' || core[0] == '#') ==> line is Nothing
            &&& core.len() > 0 && core[0] == '[' ==> (if core.last() == ']' {
                line is Nothing
            } else {
                line == LineView::Broken("节区标题缺少右括号"@)
            })
            &&& core.len() > 0 && core[0] != ';' && core[0] != '#' && core[0] != '[' && (forall|
                i: int,
            |
                0 <= i < core.len() ==> #[trigger] core[i] != '=') ==> line == LineView::Broken(
                "缺少 “=”"@,
            )
        }),
{
    let raw = before + core + after;
    assert(text::without_leading(raw, '\u{feff}') == raw) by {
        if raw.len() > 0 {
            if before.len() > 0 {
                assert(raw[0] == before[0]);
            } else if core.len() > 0 {
                assert(raw[0] == core[0]);
            } else {
                assert(raw[0] == after[0]);
            }
        }
    }
    text::law_trimming_keeps_what_stands_between(before, core, after);
    if forall|i: int| 0 <= i < core.len() ==> #[trigger] core[i] != '=' {
        text::lemma_first_separator(core, text::Separator::One('='), core.len() as int);
    }
}

/// A line `password = v` sets the password to exactly `v`, and likewise for the account and the host
/// name, whatever `v` holds, a `#`, a `;`, a `=` or a quote among it.
pub proof fn law_words_are_taken_verbatim(config: ConfigView, value: Seq<char>)
    requires
        text::is_bare(value),
    ensures
        after_line(config, "password = "@ + value) == Ok::<ConfigView, Seq<char>>(
            ConfigView { password: value, ..config },
        ),
        after_line(config, "account = "@ + value) == Ok::<ConfigView, Seq<char>>(
            ConfigView { account: value, ..config },
        ),
        after_line(config, "hostname = "@ + value) == Ok::<ConfigView, Seq<char>>(
            ConfigView { hostname: Some(value), ..config },
        ),
{
    lemma_setting("password"@, "password = "@, value);
    lemma_setting("account"@, "account = "@, value);
    lemma_setting("hostname"@, "hostname = "@, value);
    law_the_keys_of_the_file();
    lemma_three_keys();
}

proof fn lemma_three_keys()
    ensures
        "password = "@ == "password"@ + seq![' ', '=', ' '],
        "account = "@ == "account"@ + seq![' ', '=', ' '],
        "hostname = "@ == "hostname"@ + seq![' ', '=', ' '],
        plain_key("password"@),
        plain_key("account"@),
        plain_key("hostname"@),
{
    reveal_strlit("password");
    reveal_strlit("account");
    reveal_strlit("hostname");
    reveal_strlit("password = ");
    reveal_strlit("account = ");
    reveal_strlit("hostname = ");
    assert("password = "@ =~= "password"@ + seq![' ', '=', ' ']);
    assert("account = "@ =~= "account"@ + seq![' ', '=', ' ']);
    assert("hostname = "@ =~= "hostname"@ + seq![' ', '=', ' ']);
}

/// Whether a key is written in lower-case letters alone.
pub open spec fn plain_key(key: Seq<char>) -> bool {
    key.len() > 0 && forall|i: int| 0 <= i < key.len() ==> 'a' <= #[trigger] key[i] && key[i] <= 'z'
}

proof fn lemma_setting(key: Seq<char>, start: Seq<char>, value: Seq<char>)
    requires
        text::is_bare(value),
    ensures
        plain_key(key) && start == key + seq![' ', '=', ' '] ==> line_of(start + value) == (
        LineView::Setting { key, value }),
{
    if plain_key(key) && start == key + seq![' ', '=', ' '] {
        let space = seq![' '];
        let none = Seq::<char>::empty();
        assert('a' <= key[0] && key[0] <= 'z');
        assert('a' <= key[key.len() - 1] && key[key.len() - 1] <= 'z');
        assert forall|i: int| 0 <= i < key.len() implies #[trigger] key[i] != '=' by {
            assert('a' <= key[i]);
        }
        law_a_value_is_taken_as_it_stands(none, key, space, space, value, none);
        assert(start + value =~= none + key + space + seq!['='] + space + value + none);
        assert(text::ascii_lowered(key) =~= key) by {
            assert forall|i: int| 0 <= i < key.len() implies text::ascii_lowered(key)[i]
                == key[i] by {
                assert('a' <= key[i]);
            }
        }
    }
}

/// A text that ends in `password = v`, behind lines that are accepted, gives the password `v` and
/// leaves the rest as those lines set it.
pub proof fn law_the_last_line_counts_as_written(first: Seq<char>, value: Seq<char>)
    requires
        first.len() == 0 || first.last() == '\n',
        config_of(first) is Ok,
        text::is_bare(value),
        forall|i: int| 0 <= i < value.len() ==> #[trigger] value[i] != '\n',
    ensures
        config_of(first + ("password = "@ + value)) == Ok::<ConfigView, ErrorView>(
            ConfigView { password: value, ..config_of(first)->Ok_0 },
        ),
{
    let line = "password = "@ + value;
    let head = text::lines(first);
    let whole = first + line;
    reveal_strlit("password = ");
    assert forall|i: int| 0 <= i < line.len() implies #[trigger] line[i] != '\n' by {
        if i >= 11 {
            assert(line[i] == value[i - 11]);
        }
    }
    text::law_a_line_is_kept_whole(line);
    text::law_lines_add_up(first, line);
    assert(text::lines(whole) =~= head.push(line));
    assert(text::lines(whole) =~= head + seq![line]);
    lemma_same_beginning(head, seq![line], head.len());
    law_words_are_taken_verbatim(config_of(first)->Ok_0, value);
}

/// An address that is written in dotted notation is taken as that address, for each of the three
/// fields that are one; and what is no such notation is refused.
pub proof fn law_addresses_are_taken(config: ConfigView, address: Ipv4Addr, value: Seq<char>)
    ensures
        assigned(config, Field::LocalIp, net::ipv4_text(address)) == Ok::<ConfigView, Seq<char>>(
            ConfigView { local_ip: Some(address), ..config },
        ),
        assigned(config, Field::Dns, net::ipv4_text(address)) == Ok::<ConfigView, Seq<char>>(
            ConfigView { dns: Some(address), ..config },
        ),
        assigned(config, Field::Dhcp, net::ipv4_text(address)) == Ok::<ConfigView, Seq<char>>(
            ConfigView { dhcp: Some(address), ..config },
        ),
        (forall|other: Ipv4Addr| value != #[trigger] net::ipv4_text(other)) ==> {
            &&& assigned(config, Field::LocalIp, value) is Err
            &&& assigned(config, Field::Dns, value) is Err
            &&& assigned(config, Field::Dhcp, value) is Err
        },
{
    net::law_dotted_notation_is_read_back(address);
}

/// A port is taken as the number that it spells. Zero asks for any port, which only the local one
/// may; nothing above 65535 is a port.
pub proof fn law_ports_are_taken(config: ConfigView, port: nat)
    ensures
        ({
            let word = text::decimal(port);
            let server = assigned(config, Field::ServerPort, word);
            let local = assigned(config, Field::LocalPort, word);
            &&& 1 <= port <= 65535 ==> server == Ok::<ConfigView, Seq<char>>(
                ConfigView { server_port: Some(port as u16), ..config },
            )
            &&& port == 0 || port > 65535 ==> server is Err
            &&& port <= 65535 ==> local == Ok::<ConfigView, Seq<char>>(
                ConfigView { local_port: Some(port as u16), ..config },
            )
            &&& port > 65535 ==> local is Err
        }),
{
    let word = text::decimal(port);
    text::law_decimal_spells_the_number(port);
    assert(text::is_digit(word[0]));
    assert(text::is_digit(word[word.len() - 1]));
    let none = Seq::<char>::empty();
    text::law_trimming_keeps_what_stands_between(none, word, none);
    assert(none + word + none =~= word);
    if port <= 65535 {
        text::law_decimal_is_read_back(port, 65535);
    }
}

/// A MAC is taken as the number that its hexadecimal digits spell, with or without `0x` in front; up
/// to twelve digits are one, none or more are not.
pub proof fn law_macs_are_taken(config: ConfigView, mac: u64)
    ensures
        mac < 0x1_0000_0000_0000 ==> {
            &&& assigned(config, Field::Mac, text::hexadecimal(mac as nat)) == Ok::<
                ConfigView,
                Seq<char>,
            >(ConfigView { mac: Some(mac), ..config })
            &&& assigned(config, Field::Mac, seq!['0', 'x'] + text::hexadecimal(mac as nat)) == Ok::<
                ConfigView,
                Seq<char>,
            >(ConfigView { mac: Some(mac), ..config })
        },
        assigned(config, Field::Mac, Seq::empty()) is Err,
{
    let word = text::hexadecimal(mac as nat);
    let none = Seq::<char>::empty();
    text::law_hexadecimal_is_read_back(mac as nat);
    if mac < 0x1_0000_0000_0000 {
        lemma_power2_at_48();
        lemma_hexadecimal_len(mac as nat, 12);
        assert(text::is_hex_digit(word[0]));
        assert(text::is_hex_digit(word[word.len() - 1]));
        text::law_trimming_keeps_what_stands_between(none, word, none);
        assert(none + word + none =~= word);
        assert(!(word.len() >= 2 && word[0] == '0' && (word[1] == 'x' || word[1] == 'X'))) by {
            if word.len() >= 2 {
                assert(text::is_hex_digit(word[1]));
            }
        }
        assert(mac_digits(word) == word);
        let marked = seq!['0', 'x'] + word;
        text::law_trimming_keeps_what_stands_between(none, marked, none);
        assert(none + marked + none =~= marked);
        assert(marked.skip(2) =~= word);
        assert(text::without_leading_pair(marked, '0', 'x') == word);
        assert(mac_digits(marked) == word);
    }
    text::law_trimming_keeps_what_stands_between(none, none, none);
    assert(none + none + none =~= none);
    assert(mac_digits(none) =~= none);
}

proof fn lemma_power2_at_48()
    ensures
        crate::adapter::power2(48) == 0x1_0000_0000_0000,
{
    crate::adapter::lemma_power2_at_32();
    reveal_with_fuel(crate::adapter::power2, 17);
    assert(crate::adapter::power2(48) == 65536 * crate::adapter::power2(32));
}

proof fn lemma_hexadecimal_len(n: nat, width: nat)
    requires
        width >= 1,
        n < crate::adapter::power2(4 * width),
    ensures
        text::hexadecimal(n).len() <= width,
    decreases width,
{
    if n >= 16 {
        if width == 1 {
            reveal_with_fuel(crate::adapter::power2, 5);
        } else {
            reveal_with_fuel(crate::adapter::power2, 5);
            assert(crate::adapter::power2(4 * width) == 16 * crate::adapter::power2(
                (4 * (width - 1)) as nat,
            ));
            lemma_hexadecimal_len(n / 16, (width - 1) as nat);
        }
    }
}

/// The words for what the session may do to the routing table, and no others.
pub proof fn law_route_modes_are_taken(config: ConfigView)
    ensures
        route_mode_of("off"@) == Ok::<RouteMode, Seq<char>>(RouteMode::Off),
        route_mode_of("none"@) == Ok::<RouteMode, Seq<char>>(RouteMode::Off),
        route_mode_of("0"@) == Ok::<RouteMode, Seq<char>>(RouteMode::Off),
        route_mode_of("dry-run"@) == Ok::<RouteMode, Seq<char>>(RouteMode::DryRun),
        route_mode_of("dryrun"@) == Ok::<RouteMode, Seq<char>>(RouteMode::DryRun),
        route_mode_of("check"@) == Ok::<RouteMode, Seq<char>>(RouteMode::DryRun),
        route_mode_of("manage"@) == Ok::<RouteMode, Seq<char>>(RouteMode::Manage),
        route_mode_of("on"@) == Ok::<RouteMode, Seq<char>>(RouteMode::Manage),
        route_mode_of("1"@) == Ok::<RouteMode, Seq<char>>(RouteMode::Manage),
        assigned(config, Field::AuthRoute, "manage"@) == Ok::<ConfigView, Seq<char>>(
            ConfigView { auth_route: Some(RouteMode::Manage), ..config },
        ),
{
    reveal_strlit("off");
    reveal_strlit("none");
    reveal_strlit("0");
    reveal_strlit("dry-run");
    reveal_strlit("dryrun");
    reveal_strlit("check");
    reveal_strlit("manage");
    reveal_strlit("on");
    reveal_strlit("1");
    lemma_plain_word("off"@);
    lemma_plain_word("none"@);
    lemma_plain_word("0"@);
    lemma_plain_word("dry-run"@);
    lemma_plain_word("dryrun"@);
    lemma_plain_word("check"@);
    lemma_plain_word("manage"@);
    lemma_plain_word("on"@);
    lemma_plain_word("1"@);
}

proof fn lemma_plain_word(word: Seq<char>)
    requires
        word.len() > 0,
        forall|i: int|
            0 <= i < word.len() ==> ('a' <= #[trigger] word[i] && word[i] <= 'z') || word[i] == '-'
                || word[i] == '0' || word[i] == '1',
    ensures
        text::ascii_lowered(text::trimmed(word)) == word,
{
    let none = Seq::<char>::empty();
    let first = word[0];
    let last = word[word.len() - 1];
    text::law_trimming_keeps_what_stands_between(none, word, none);
    assert(none + word + none =~= word);
    assert(text::ascii_lowered(word) =~= word);
}

/// A list of servers is read part by part: between commas or white space stands an address or
/// nothing, the addresses come out in order, and the first part that is neither refuses the list.
pub proof fn law_server_lists_add_up(
    before: Seq<char>,
    between: char,
    after: Seq<char>,
    address: Ipv4Addr,
)
    requires
        between == ',' || text::is_space(between),
    ensures
        servers_of(net::ipv4_text(address)) == Ok::<Seq<Ipv4Addr>, Seq<char>>(seq![address]),
        servers_of(Seq::empty()) == Ok::<Seq<Ipv4Addr>, Seq<char>>(Seq::empty()),
        servers_of(before.push(between) + after) == (match servers_of(before) {
            Err(message) => Err::<Seq<Ipv4Addr>, Seq<char>>(message),
            Ok(listed) => match servers_of(after) {
                Err(message) => Err::<Seq<Ipv4Addr>, Seq<char>>(message),
                Ok(more) => Ok::<Seq<Ipv4Addr>, Seq<char>>(listed + more),
            },
        }),
{
    let separator = text::Separator::CommaOrSpace;
    let none = Seq::<char>::empty();
    text::law_a_separator_divides(before, between, after, separator);
    let head = text::split(before, separator);
    let more = text::split(after, separator);
    lemma_addresses_of_both(head, more, more.len());
    assert((head + more).len() == head.len() + more.len());
    if servers_of(before) is Err {
        lemma_addresses_error(head + more, head.len(), (head + more).len());
    }
    let word = net::ipv4_text(address);
    net::law_dotted_notation_is_read_back(address);
    lemma_dotted_is_one_part(address);
    text::law_a_separator_divides(none, ',', word, separator);
    text::law_a_separator_divides(none, ',', none, separator);
    text::law_trimming_keeps_what_stands_between(none, word, none);
    assert(none + word + none =~= word);
    text::law_trimming_keeps_what_stands_between(none, none, none);
    assert(none + none + none =~= none);
    reveal_with_fuel(addresses_of, 2);
    assert(Seq::<Ipv4Addr>::empty().push(address) =~= seq![address]);
}

proof fn lemma_dotted_is_one_part(address: Ipv4Addr)
    ensures
        ({
            let word = net::ipv4_text(address);
            &&& word.len() > 0
            &&& forall|i: int|
                0 <= i < word.len() ==> !text::separates(
                    text::Separator::CommaOrSpace,
                    #[trigger] word[i],
                )
            &&& text::is_bare(word)
        }),
{
    let word = net::ipv4_text(address);
    text::law_decimal_spells_the_number(address.a as nat);
    text::law_decimal_spells_the_number(address.b as nat);
    text::law_decimal_spells_the_number(address.c as nat);
    text::law_decimal_spells_the_number(address.d as nat);
    let a = text::decimal(address.a as nat);
    let b = text::decimal(address.b as nat);
    let c = text::decimal(address.c as nat);
    let d = text::decimal(address.d as nat);
    assert forall|i: int| 0 <= i < word.len() implies text::is_digit(#[trigger] word[i]) || word[i]
        == '.' by {
        let p = a.len() as int;
        let q = p + 1 + b.len();
        let r = q + 1 + c.len();
        if i < p {
            assert(word[i] == a[i]);
        } else if p < i < q {
            assert(word[i] == b[i - p - 1]);
        } else if q < i < r {
            assert(word[i] == c[i - q - 1]);
        } else if i > r {
            assert(word[i] == d[i - r - 1]);
        }
    }
    assert(text::is_digit(word[0]) || word[0] == '.');
    assert(text::is_digit(word[word.len() - 1]) || word[word.len() - 1] == '.');
}

proof fn lemma_addresses_error(parts: Seq<Seq<char>>, n: nat, m: nat)
    requires
        addresses_of(parts, n) is Err,
        n <= m,
    ensures
        addresses_of(parts, m) == addresses_of(parts, n),
    decreases m,
{
    if n < m {
        lemma_addresses_error(parts, n, (m - 1) as nat);
    }
}

proof fn lemma_addresses_beginning(head: Seq<Seq<char>>, more: Seq<Seq<char>>, n: nat)
    requires
        n <= head.len(),
    ensures
        addresses_of(head + more, n) == addresses_of(head, n),
    decreases n,
{
    if n > 0 {
        lemma_addresses_beginning(head, more, (n - 1) as nat);
        assert((head + more)[n - 1] == head[n - 1]);
    }
}

proof fn lemma_addresses_of_both(head: Seq<Seq<char>>, more: Seq<Seq<char>>, n: nat)
    requires
        n <= more.len(),
    ensures
        addresses_of(head + more, head.len()) == addresses_of(head, head.len()),
        addresses_of(head, head.len()) is Ok ==> addresses_of(head + more, head.len() + n) == (
        match addresses_of(more, n) {
            Err(message) => Err::<Seq<Ipv4Addr>, Seq<char>>(message),
            Ok(listed) => Ok::<Seq<Ipv4Addr>, Seq<char>>(
                addresses_of(head, head.len())->Ok_0 + listed,
            ),
        }),
    decreases n,
{
    lemma_addresses_beginning(head, more, head.len());
    if addresses_of(head, head.len()) is Ok {
        let start = addresses_of(head, head.len())->Ok_0;
        if n == 0 {
            assert(start + Seq::<Ipv4Addr>::empty() =~= start);
        } else {
            let before = (n - 1) as nat;
            lemma_addresses_of_both(head, more, before);
            assert((head + more)[head.len() + n - 1] == more[n - 1]);
            assert((head.len() + n - 1) as nat == head.len() + before);
            if addresses_of(more, before) is Ok {
                let so_far = addresses_of(more, before)->Ok_0;
                assert forall|address: Ipv4Addr| #[trigger] (start + so_far).push(address) =~= start
                    + so_far.push(address) by {
                }
            }
        }
    }
}

/// What a client needs to log in, one by one, in the order in which it is missed.
pub proof fn law_what_a_client_needs(config: ConfigView)
    ensures
        ({
            let account = vstd::utf8::encode_utf8(config.account).len();
            let password = vstd::utf8::encode_utf8(config.password).len();
            &&& shortcoming(config) is None <==> config.account.len() > 0 && config.password.len()
                > 0 && account <= 36 && password <= 16 && config.servers.len() > 0
            &&& config.account.len() == 0 ==> shortcoming(config) == Some("缺少 account（账号）"@)
            &&& config.account.len() > 0 && config.password.len() == 0 ==> shortcoming(config)
                == Some("缺少 password（密码）"@)
        }),
{
}

/// The servers of a client: those of the file where it names any; else those that the environment
/// lists, where it lists any; else 10.100.61.3.
pub proof fn law_where_the_servers_come_from(
    servers: Seq<Ipv4Addr>,
    environment: Option<Seq<char>>,
)
    ensures
        ({
            let chosen = chosen_servers(servers, environment);
            let listed = environment is Some && servers_of(environment->0) is Ok && servers_of(
                environment->0,
            )->Ok_0.len() > 0;
            &&& servers.len() > 0 ==> chosen == servers
            &&& servers.len() == 0 && listed ==> chosen == servers_of(environment->0)->Ok_0
            &&& servers.len() == 0 && !listed ==> chosen == seq![
                Ipv4Addr { a: 10, b: 100, c: 61, d: 3 },
            ]
        }),
{
}

/// A byte-order mark in front of a line does not count, and a line with a key that is not known is
/// refused by the name of the key.
pub proof fn law_marks_and_unknown_keys(config: ConfigView, raw: Seq<char>)
    ensures
        line_of(seq!['\u{feff}'] + raw) == line_of(raw),
        line_of(raw) matches LineView::Setting { key, value } ==> {
            &&& field_of(key) is None ==> after_line(config, raw) == Err::<ConfigView, Seq<char>>(
                "未知配置项 "@ + key,
            )
            &&& field_of(key) matches Some(field) ==> after_line(config, raw) == assigned(
                config,
                field,
                value,
            )
        },
        line_of(raw) is Nothing ==> after_line(config, raw) == Ok::<ConfigView, Seq<char>>(config),
        line_of(raw) matches LineView::Broken(message) ==> after_line(config, raw) == Err::<
            ConfigView,
            Seq<char>,
        >(message),
{
    let marked = seq!['\u{feff}'] + raw;
    assert(marked.skip(1) =~= raw);
}

/// An error names its line where it has one; lines are counted from one.
pub proof fn law_how_a_configuration_error_is_told(
    first: Seq<char>,
    line: Seq<char>,
    message: Seq<char>,
)
    requires
        first.len() == 0 || first.last() == '\n',
        config_of(first) is Ok,
        line.len() > 0,
        forall|i: int| 0 <= i < line.len() ==> #[trigger] line[i] != '\n',
        after_line(config_of(first)->Ok_0, line) == Err::<ConfigView, Seq<char>>(message),
    ensures
        config_of(first + line) is Err,
        config_of(first + line)->Err_0.line == text::lines(first).len() + 1,
        config_of(first + line)->Err_0.message == message,
        config_error_text(0, message) == message,
        config_error_text(text::lines(first).len() + 1, message) == "第 "@ + text::decimal(
            text::lines(first).len() + 1,
        ) + " 行："@ + message,
{
    text::law_lines_add_up(first, line);
    text::law_a_line_is_kept_whole(line);
    let n = text::lines(first).len();
    let all = text::lines(first + line);
    assert(all.len() == n + 1);
    assert(all[n as int] == line);
    lemma_same_front(text::lines(first), all, n);
}

proof fn lemma_same_front(lines: Seq<Seq<char>>, more: Seq<Seq<char>>, n: nat)
    requires
        n <= lines.len() <= more.len(),
        forall|i: int| 0 <= i < lines.len() ==> #[trigger] lines[i] == more[i],
    ensures
        after_lines(lines, n) == after_lines(more, n),
    decreases n,
{
    if n > 0 {
        lemma_same_front(lines, more, (n - 1) as nat);
        assert(lines[n - 1] == more[n - 1]);
    }
}

/// No other word is a key: what sets a field is one of its names.
pub proof fn law_no_other_key_counts(key: Seq<char>)
    ensures
        match field_of(key) {
            Some(Field::Servers) => key == "auth_server"@ || key == "server"@ || key == "servers"@
                || key == "server_list"@,
            Some(Field::Account) => key == "account"@ || key == "user"@ || key == "username"@,
            Some(Field::Password) => key == "password"@ || key == "pass"@,
            Some(Field::LocalIp) => key == "local_ip"@ || key == "local-ip"@ || key == "ip"@,
            Some(Field::Mac) => key == "mac"@,
            Some(Field::Hostname) => key == "hostname"@ || key == "host_name"@ || key == "host"@,
            Some(Field::Dns) => key == "dns"@ || key == "primary_dns"@,
            Some(Field::Dhcp) => key == "dhcp"@ || key == "dhcp_server"@,
            Some(Field::ServerPort) => key == "svr_port"@ || key == "server_port"@ || key
                == "port"@,
            Some(Field::LocalPort) => key == "local_port"@,
            Some(Field::AuthRoute) => key == "auth_route"@ || key == "route"@,
            None => true,
        },
{
}

/// A value that is refused is named with its field: an address that is none, a port that is no
/// number up to 65535 or is zero where that means nothing, a MAC without digits or with more than
/// twelve, a route mode that is no such word.
pub proof fn law_how_values_are_refused(config: ConfigView, value: Seq<char>)
    ensures
        net::ipv4_of(value) is None ==> {
            &&& assigned(config, Field::LocalIp, value) == Err::<ConfigView, Seq<char>>(
                "local_ip"@ + " 不是有效的 IPv4 地址："@ + value,
            )
            &&& assigned(config, Field::Dns, value) == Err::<ConfigView, Seq<char>>(
                "dns"@ + " 不是有效的 IPv4 地址："@ + value,
            )
            &&& assigned(config, Field::Dhcp, value) == Err::<ConfigView, Seq<char>>(
                "dhcp"@ + " 不是有效的 IPv4 地址："@ + value,
            )
        },
        text::unsigned_of(text::trimmed(value), 65535) is None ==> {
            &&& assigned(config, Field::ServerPort, value) == Err::<ConfigView, Seq<char>>(
                "svr_port"@ + " 不是有效端口："@ + value,
            )
            &&& assigned(config, Field::LocalPort, value) == Err::<ConfigView, Seq<char>>(
                "local_port"@ + " 不是有效端口："@ + value,
            )
        },
        text::unsigned_of(text::trimmed(value), 65535) == Some(0nat) ==> assigned(
            config,
            Field::ServerPort,
            value,
        ) == Err::<ConfigView, Seq<char>>("svr_port"@ + " 不能为 0"@),
        ({
            let digits = mac_digits(value).len();
            &&& digits == 0 ==> assigned(config, Field::Mac, value) == Err::<
                ConfigView,
                Seq<char>,
            >("mac 不能为空"@)
            &&& digits >= 13 ==> assigned(config, Field::Mac, value) == Err::<
                ConfigView,
                Seq<char>,
            >("mac 最多 12 位十六进制，当前 "@ + text::decimal(digits))
            &&& 1 <= digits <= 12 ==> assigned(config, Field::Mac, value) is Ok
        }),
        ({
            let word = text::ascii_lowered(text::trimmed(value));
            let off = word == "off"@ || word == "none"@ || word == "0"@;
            let trial = word == "dry-run"@ || word == "dryrun"@ || word == "check"@;
            let on = word == "manage"@ || word == "on"@ || word == "1"@;
            let set = assigned(config, Field::AuthRoute, value);
            &&& set is Ok <==> off || trial || on
            &&& set is Ok && set->Ok_0.auth_route == Some(RouteMode::Off) ==> off
            &&& set is Ok && set->Ok_0.auth_route == Some(RouteMode::DryRun) ==> trial
            &&& set is Ok && set->Ok_0.auth_route == Some(RouteMode::Manage) ==> on
            &&& set matches Err(message) ==> message
                == "auth_route 只能是 off / dry-run / manage，当前 "@ + word
        }),
{
}

/// A server that is no address is named, without the white space around it.
pub proof fn law_how_a_server_is_refused(word: Seq<char>)
    requires
        word.len() > 0,
        net::ipv4_of(word) is None,
        forall|i: int| 0 <= i < word.len() ==> #[trigger] word[i] != ',' && !text::is_space(word[i]),
    ensures
        servers_of(word) == Err::<Seq<Ipv4Addr>, Seq<char>>("认证服务器地址无效："@ + word),
{
    let comma = text::Separator::CommaOrSpace;
    text::law_a_separator_divides(Seq::empty(), ',', word, comma);
    let none = Seq::<char>::empty();
    assert(!text::is_space(word[word.len() - 1]));
    text::law_trimming_keeps_what_stands_between(none, word, none);
    assert(none + word + none =~= word);
    assert(text::split(word, comma) == seq![word]);
    reveal_with_fuel(addresses_of, 2);
}

} // verus!
