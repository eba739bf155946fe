//! The command-line client: its arguments, what it prints and what it writes to the log.

use vstd::prelude::*;

use crate::adapter::{self, AdapterInfo};
use crate::config::{self, ClientConfig, ConfigView};
use crate::net::{self, Ipv4Addr};
use crate::route::RouteMode;
use crate::session::{self, SessionConfig, SessionError, SessionEvent, SessionPhase};
use crate::text;

verus! {

/// The environment variable that carries the password.
pub const PASSWORD_ENV: &'static str = "DRCOM_PASSWORD";

/// The environment variable that carries the name of this machine.
pub const COMPUTER_NAME_ENV: &'static str = "COMPUTERNAME";

pub const USAGE: &'static str =
    "drcom-cli — Dr.COM 校园网命令行认证客户端\n\n用法：\n  drcom-cli --user <账号> --pass <密码> [选项]\n\n必填：\n  --user <账号>           校园网账号\n\n可选：\n  --server <ip[,ip...]>   认证服务器地址，可用逗号分隔多个；省略时使用配置、环境变量或内置地址\n  --config <文件>         读取配置文件（INI）；不指定时按顺序查找\n                          可执行文件旁的 drcom.ini 与当前目录的 drcom.ini\n  --pass <密码>           密码；也可用环境变量 DRCOM_PASSWORD，避免进入命令行历史\n  --local-ip <ip>         本机网卡 IPv4；省略时自动检测\n  --mac <mac>             网卡 MAC，支持 aa:bb:cc:dd:ee:ff、aabbccddeeff、0xaabbccddeeff\n  --hostname <name>       计算机名，默认取环境变量 COMPUTERNAME\n  --dns <ip>              主 DNS，默认 10.10.10.10\n  --dhcp <ip>             DHCP 服务器，默认 0.0.0.0\n  --port <n>              认证服务器端口，默认 61440\n  --local-port <n>        本地端口，默认 61440；0 表示由系统分配\n  --duration <秒>         保活时长，0 表示持续到手动停止，默认 0\n  --once                  只认证一次，成功后立即下线\n  --auth-route            解析认证服务器主机路由并打印计划，但不修改路由表\n  --auth-route-apply      登录前添加认证服务器 /32 主机路由，下线后移除（需管理员）\n  --quiet                 只输出阶段变化与错误\n  --help                  显示本帮助\n\n配置文件（INI）示例：\n  ; 认证服务器，对应原版配置里的 auth_server\n  [drcom]\n  auth_server = 10.100.61.3, 10.100.61.4\n  svr_port    = 61440\n  account     = 20230001\n  password    = secret\n  auth_route  = dry-run\n";

/// What a run is asked for.
#[derive(Debug, Clone, PartialEq, Eq)]
pub struct Args {
    pub servers: Vec<Ipv4Addr>,
    pub user: String,
    pub pass: String,
    pub local_ip: Option<Ipv4Addr>,
    pub mac: u64,
    pub hostname: String,
    pub dns: Ipv4Addr,
    pub dhcp: Ipv4Addr,
    pub port: u16,
    pub local_port: u16,
    /// How long the session is kept alive, in seconds; zero is until it is stopped.
    pub duration: u64,
    pub once: bool,
    pub quiet: bool,
    pub auth_route: RouteMode,
}

/// The mathematical content of `Args`.
pub struct ArgsView {
    pub servers: Seq<Ipv4Addr>,
    pub user: Seq<char>,
    pub pass: Seq<char>,
    pub local_ip: Option<Ipv4Addr>,
    pub mac: u64,
    pub hostname: Seq<char>,
    pub dns: Ipv4Addr,
    pub dhcp: Ipv4Addr,
    pub port: u16,
    pub local_port: u16,
    pub duration: u64,
    pub once: bool,
    pub quiet: bool,
    pub auth_route: RouteMode,
}

impl View for Args {
    type V = ArgsView;

    open spec fn view(&self) -> ArgsView {
        ArgsView {
            servers: self.servers@,
            user: self.user@,
            pass: self.pass@,
            local_ip: self.local_ip,
            mac: self.mac,
            hostname: self.hostname@,
            dns: self.dns,
            dhcp: self.dhcp,
            port: self.port,
            local_port: self.local_port,
            duration: self.duration,
            once: self.once,
            quiet: self.quiet,
            auth_route: self.auth_route,
        }
    }
}

/// A run that is being put together.
struct Draft {
    args: Args,
    servers_from_flag: bool,
}

/// A run that is being put together.
pub struct DraftView {
    pub args: ArgsView,
    /// Whether the servers come from flags.
    pub servers_from_flag: bool,
}

impl Draft {
    spec fn content(self) -> DraftView {
        DraftView {
            args: self.args@,
            servers_from_flag: self.servers_from_flag,
        }
    }
}

/// What the environment says.
pub struct Environment<'a> {
    pub servers: Option<&'a str>,
    pub password: Option<&'a str>,
    pub computer_name: Option<&'a str>,
}

/// The address that the login frame names where no DNS server is configured.
pub open spec fn default_dns() -> Ipv4Addr {
    Ipv4Addr { a: 10, b: 10, c: 10, d: 10 }
}

/// What a run is before any flag: the file, then the environment, then the defaults.
pub open spec fn seeded(
    file: ConfigView,
    servers: Option<Seq<char>>,
    password: Option<Seq<char>>,
    computer_name: Option<Seq<char>>,
) -> DraftView {
    DraftView {
        args: ArgsView {
            servers: config::chosen_servers(file.servers, servers),
            user: file.account,
            pass: if file.password.len() > 0 {
                file.password
            } else {
                match password {
                    Some(password) => password,
                    None => Seq::empty(),
                }
            },
            local_ip: file.local_ip,
            mac: match file.mac {
                Some(mac) => mac,
                None => adapter::DEFAULT_MAC,
            },
            hostname: match file.hostname {
                Some(name) => name,
                None => match computer_name {
                    Some(name) => name,
                    None => Seq::empty(),
                },
            },
            dns: match file.dns {
                Some(address) => address,
                None => default_dns(),
            },
            dhcp: match file.dhcp {
                Some(address) => address,
                None => net::unspecified(),
            },
            port: match file.server_port {
                Some(port) => port,
                None => 61440,
            },
            local_port: match file.local_port {
                Some(port) => port,
                None => 61440,
            },
            duration: 0,
            once: false,
            quiet: false,
            auth_route: match file.auth_route {
                Some(mode) => mode,
                None => RouteMode::Off,
            },
        },
        servers_from_flag: false,
    }
}

/// What an argument can be.
#[derive(Debug, Clone, Copy, PartialEq, Eq, Structural)]
pub enum Flag {
    Config,
    Server,
    User,
    Pass,
    LocalIp,
    Mac,
    Hostname,
    Dns,
    Dhcp,
    Port,
    LocalPort,
    Duration,
    Once,
    AuthRoute,
    AuthRouteApply,
    Quiet,
}

/// The flag that a word stands for.
pub open spec fn flag_of(word: Seq<char>) -> Option<Flag> {
    if word == "--config"@ {
        Some(Flag::Config)
    } else if word == "--server"@ {
        Some(Flag::Server)
    } else if word == "--user"@ {
        Some(Flag::User)
    } else if word == "--pass"@ {
        Some(Flag::Pass)
    } else if word == "--local-ip"@ {
        Some(Flag::LocalIp)
    } else if word == "--mac"@ {
        Some(Flag::Mac)
    } else if word == "--hostname"@ {
        Some(Flag::Hostname)
    } else if word == "--dns"@ {
        Some(Flag::Dns)
    } else if word == "--dhcp"@ {
        Some(Flag::Dhcp)
    } else if word == "--port"@ {
        Some(Flag::Port)
    } else if word == "--local-port"@ {
        Some(Flag::LocalPort)
    } else if word == "--duration"@ {
        Some(Flag::Duration)
    } else if word == "--once"@ {
        Some(Flag::Once)
    } else if word == "--auth-route"@ {
        Some(Flag::AuthRoute)
    } else if word == "--auth-route-apply"@ {
        Some(Flag::AuthRouteApply)
    } else if word == "--quiet"@ {
        Some(Flag::Quiet)
    } else {
        None
    }
}

/// Whether a flag stands alone.
pub open spec fn stands_alone(flag: Flag) -> bool {
    flag is Once || flag is AuthRoute || flag is AuthRouteApply || flag is Quiet
}

/// What a flag that stands alone changes.
pub open spec fn switched(flag: Flag, draft: DraftView) -> DraftView {
    match flag {
        Flag::Once => DraftView { args: ArgsView { once: true, ..draft.args }, ..draft },
        Flag::AuthRoute => DraftView {
            args: ArgsView { auth_route: RouteMode::DryRun, ..draft.args },
            ..draft
        },
        Flag::AuthRouteApply => DraftView {
            args: ArgsView { auth_route: RouteMode::Manage, ..draft.args },
            ..draft
        },
        Flag::Quiet => DraftView { args: ArgsView { quiet: true, ..draft.args }, ..draft },
        _ => draft,
    }
}

/// The addresses of the first `n` parts, or the complaint about the first part that is none.
pub open spec fn listed(parts: Seq<Seq<char>>, n: nat) -> Result<Seq<Ipv4Addr>, Seq<char>>
    decreases n,
{
    if n == 0 {
        Ok(Seq::empty())
    } else {
        match listed(parts, (n - 1) as nat) {
            Err(message) => Err(message),
            Ok(addresses) => match net::ipv4_of(text::trimmed(parts[n - 1])) {
                Some(address) => Ok(addresses.push(address)),
                None => Err("服务器地址无效："@ + parts[n - 1]),
            },
        }
    }
}

/// The servers that a value lists.
pub open spec fn servers_in(value: Seq<char>) -> Result<Seq<Ipv4Addr>, Seq<char>> {
    let parts = text::split(value, text::Separator::One(','));
    listed(parts, parts.len())
}

/// The MAC address that a value spells. Zero is none, so the default stands for it.
pub open spec fn mac_in(value: Seq<char>) -> Result<u64, Seq<char>> {
    let digits = config::mac_digits(value);
    if digits.len() == 0 || digits.len() > 12 {
        Err("MAC 无效："@ + value)
    } else if text::hex_value(digits) == 0 {
        Ok(adapter::DEFAULT_MAC)
    } else {
        Ok(text::hex_value(digits) as u64)
    }
}

/// What a flag with a value changes, or the complaint about the value.
pub open spec fn given(flag: Flag, value: Seq<char>, draft: DraftView) -> Result<
    DraftView,
    Seq<char>,
> {
    let args = draft.args;
    match flag {
        Flag::Server => match servers_in(value) {
            Err(message) => Err(message),
            Ok(servers) => Ok(
                DraftView {
                    args: ArgsView {
                        servers: if draft.servers_from_flag {
                            args.servers + servers
                        } else {
                            servers
                        },
                        ..args
                    },
                    servers_from_flag: true,
                    ..draft
                },
            ),
        },
        Flag::User => Ok(DraftView { args: ArgsView { user: value, ..args }, ..draft }),
        Flag::Pass => Ok(DraftView { args: ArgsView { pass: value, ..args }, ..draft }),
        Flag::LocalIp => match net::ipv4_of(value) {
            None => Err("--local-ip 不是有效的 IPv4 地址"@),
            Some(address) => Ok(
                DraftView { args: ArgsView { local_ip: Some(address), ..args }, ..draft },
            ),
        },
        Flag::Mac => match mac_in(value) {
            Err(message) => Err(message),
            Ok(mac) => Ok(
                DraftView { args: ArgsView { mac, ..args }, ..draft },
            ),
        },
        Flag::Hostname => Ok(DraftView { args: ArgsView { hostname: value, ..args }, ..draft }),
        Flag::Dns => match net::ipv4_of(value) {
            None => Err("--dns 不是有效的 IPv4 地址"@),
            Some(address) => Ok(DraftView { args: ArgsView { dns: address, ..args }, ..draft }),
        },
        Flag::Dhcp => match net::ipv4_of(value) {
            None => Err("--dhcp 不是有效的 IPv4 地址"@),
            Some(address) => Ok(DraftView { args: ArgsView { dhcp: address, ..args }, ..draft }),
        },
        Flag::Port => match text::unsigned_of(value, 65535) {
            None => Err("--port 不是有效端口"@),
            Some(port) => Ok(DraftView { args: ArgsView { port: port as u16, ..args }, ..draft }),
        },
        Flag::LocalPort => match text::unsigned_of(value, 65535) {
            None => Err("--local-port 不是有效端口"@),
            Some(port) => Ok(
                DraftView { args: ArgsView { local_port: port as u16, ..args }, ..draft },
            ),
        },
        Flag::Duration => match text::unsigned_of(value, u64::MAX as nat) {
            None => Err("--duration 需要秒数"@),
            Some(seconds) => Ok(
                DraftView { args: ArgsView { duration: seconds as u64, ..args }, ..draft },
            ),
        },
        _ => Ok(draft),
    }
}

/// What the arguments make of a draft, taken one after the other, or the first complaint.
pub open spec fn read_flags(words: Seq<Seq<char>>, draft: DraftView) -> Result<
    DraftView,
    Seq<char>,
>
    decreases words.len(),
{
    if words.len() == 0 {
        Ok(draft)
    } else {
        match flag_of(words[0]) {
            None => Err("未知参数 "@ + words[0]),
            Some(flag) => if stands_alone(flag) {
                read_flags(words.skip(1), switched(flag, draft))
            } else if words.len() == 1 {
                Err(words[0] + " 缺少取值"@)
            } else {
                match given(flag, words[1], draft) {
                    Err(message) => Err(message),
                    Ok(next) => read_flags(words.skip(2), next),
                }
            },
        }
    }
}

/// The run that arguments ask for, or the complaint about them.
pub open spec fn run_of(words: Seq<Seq<char>>, draft: DraftView) -> Result<ArgsView, Seq<char>> {
    match read_flags(words, draft) {
        Err(message) => Err(message),
        Ok(draft) => if draft.args.user.len() == 0 {
            Err("必须用 --user 或配置文件里的 account 指定账号"@)
        } else if draft.args.pass.len() == 0 {
            Err("必须用 --pass、配置文件里的 password 或环境变量 DRCOM_PASSWORD 提供密码"@)
        } else {
            Ok(draft.args)
        },
    }
}

/// Whether the arguments ask for help.
pub fn wants_help(args: &[String]) -> (yes: bool)
    ensures
        yes == exists|i: int|
            0 <= i < args@.len() && ((#[trigger] args@[i])@ == "--help"@ || args@[i]@ == "-h"@),
{
    let mut i: usize = 0;
    while i < args.len()
        invariant
            i <= args@.len(),
            forall|j: int|
                0 <= j < i ==> (#[trigger] args@[j])@ != "--help"@ && args@[j]@ != "-h"@,
        decreases args@.len() - i,
    {
        let word = text::chars_of(&args[i]);
        if text::reads(&word, "--help") || text::reads(&word, "-h") {
            assert(args@[i as int]@ == "--help"@ || args@[i as int]@ == "-h"@);
            return true;
        }
        i += 1;
    }
    false
}

/// Where the first `--config` stands; the length where there is none.
pub open spec fn config_flag(words: Seq<Seq<char>>) -> nat
    decreases words.len(),
{
    if words.len() == 0 || words[0] == "--config"@ {
        0
    } else {
        1 + config_flag(words.skip(1))
    }
}

/// The configuration file that the arguments name.
pub fn config_path(args: &[String]) -> (path: Option<String>)
    ensures
        ({
            let at = config_flag(text::string_views(args@));
            match path {
                Some(path) => at + 1 < args@.len() && path@ == args@[at as int + 1]@,
                None => at + 1 >= args@.len(),
            }
        }),
{
    let ghost words = text::string_views(args@);
    let total: usize = args.len();
    let mut i: usize = 0;
    assert(words.skip(0) =~= words);
    while i < total
        invariant
            total == args@.len(),
            words == text::string_views(args@),
            i <= total,
            config_flag(words) == i + config_flag(words.skip(i as int)),
        decreases total - i,
    {
        assert(words.skip(i as int)[0] == args@[i as int]@);
        if text::reads(&text::chars_of(&args[i]), "--config") {
            if i < total - 1 {
                return Some(args[i + 1].clone());
            }
            return None;
        }
        assert(words.skip(i as int).skip(1) =~= words.skip(i + 1));
        i += 1;
    }
    None
}

/// What is said of a configuration file that does not exist.
pub fn missing_config(path: &str) -> (message: String)
    ensures
        message@ == "--config 指定的文件不存在："@ + path@,
{
    let mut message = "--config 指定的文件不存在：".to_string();
    message.append(path);
    message
}

/// What is said of a configuration file that was found without being named.
pub fn loaded_config(path: &str) -> (message: String)
    ensures
        message@ == "已读取配置 "@ + path@,
{
    let mut message = "已读取配置 ".to_string();
    message.append(path);
    message
}

/// What is said of arguments that are refused.
pub fn argument_error(message: &str) -> (shown: String)
    ensures
        shown@ == "参数错误："@ + message@ + "\n\n"@ + USAGE@,
{
    let mut shown = "参数错误：".to_string();
    shown.append(message);
    shown.append("\n\n");
    shown.append(USAGE);
    shown
}

fn read_flag(word: &[char]) -> (flag: Option<Flag>)
    ensures
        flag == flag_of(word@),
{
    if text::reads(word, "--config") {
        Some(Flag::Config)
    } else if text::reads(word, "--server") {
        Some(Flag::Server)
    } else if text::reads(word, "--user") {
        Some(Flag::User)
    } else if text::reads(word, "--pass") {
        Some(Flag::Pass)
    } else if text::reads(word, "--local-ip") {
        Some(Flag::LocalIp)
    } else if text::reads(word, "--mac") {
        Some(Flag::Mac)
    } else if text::reads(word, "--hostname") {
        Some(Flag::Hostname)
    } else if text::reads(word, "--dns") {
        Some(Flag::Dns)
    } else if text::reads(word, "--dhcp") {
        Some(Flag::Dhcp)
    } else if text::reads(word, "--port") {
        Some(Flag::Port)
    } else if text::reads(word, "--local-port") {
        Some(Flag::LocalPort)
    } else if text::reads(word, "--duration") {
        Some(Flag::Duration)
    } else if text::reads(word, "--once") {
        Some(Flag::Once)
    } else if text::reads(word, "--auth-route") {
        Some(Flag::AuthRoute)
    } else if text::reads(word, "--auth-route-apply") {
        Some(Flag::AuthRouteApply)
    } else if text::reads(word, "--quiet") {
        Some(Flag::Quiet)
    } else {
        None
    }
}

/// Reads a MAC address.
pub fn parse_mac(value: &str) -> (result: Result<u64, String>)
    ensures
        match result {
            Ok(mac) => mac_in(value@) == Ok::<u64, Seq<char>>(mac),
            Err(message) => mac_in(value@) == Err::<u64, Seq<char>>(message@),
        },
{
    let chars = text::chars_of(value);
    let bare = text::strip_leading_pair(
        text::strip_leading_pair(text::trim(&chars), '0', 'x'),
        '0',
        'X',
    );
    let digits = text::hex_digits_in(bare);
    if digits.len() == 0 || digits.len() > 12 {
        let mut message = "MAC 无效：".to_string();
        message.append(value);
        return Err(message);
    }
    let mac: u64 = text::read_hex(&digits);
    if mac == 0 {
        Ok(adapter::DEFAULT_MAC)
    } else {
        Ok(mac)
    }
}

proof fn lemma_listed_error(parts: Seq<Seq<char>>, n: nat, m: nat)
    requires
        listed(parts, n) is Err,
        n <= m,
    ensures
        listed(parts, m) == listed(parts, n),
    decreases m,
{
    if n < m {
        lemma_listed_error(parts, n, (m - 1) as nat);
    }
}

/// Reads a list of servers with commas between them.
pub fn parse_servers(value: &str) -> (result: Result<Vec<Ipv4Addr>, String>)
    ensures
        match result {
            Ok(servers) => servers_in(value@) == Ok::<Seq<Ipv4Addr>, Seq<char>>(servers@),
            Err(message) => servers_in(value@) == Err::<Seq<Ipv4Addr>, Seq<char>>(message@),
        },
{
    let parts = text::split_text(&text::chars_of(value), text::Separator::One(','));
    let ghost views = text::char_views(parts@);
    assert(views.len() == parts@.len());
    let mut servers: Vec<Ipv4Addr> = Vec::new();
    let mut i: usize = 0;
    while i < parts.len()
        invariant
            i <= parts@.len(),
            views == text::char_views(parts@),
            views.len() == parts@.len(),
            views == text::split(value@, text::Separator::One(',')),
            listed(views, i as nat) == Ok::<Seq<Ipv4Addr>, Seq<char>>(servers@),
        decreases parts@.len() - i,
    {
        assert(views[i as int] == parts@[i as int]@);
        match net::parse_ipv4(text::trim(&parts[i])) {
            Some(address) => servers.push(address),
            None => {
                let mut message = "服务器地址无效：".to_string();
                message.append(&text::string_of(&parts[i]));
                proof {
                    lemma_listed_error(views, (i + 1) as nat, views.len());
                }
                return Err(message);
            },
        }
        i += 1;
    }
    Ok(servers)
}

fn append_servers(all: &mut Vec<Ipv4Addr>, more: &[Ipv4Addr])
    ensures
        final(all)@ == old(all)@ + more@,
{
    let mut i: usize = 0;
    while i < more.len()
        invariant
            i <= more@.len(),
            all@ == old(all)@ + more@.take(i as int),
        decreases more@.len() - i,
    {
        all.push(more[i]);
        assert(more@.take(i + 1) =~= more@.take(i as int).push(more@[i as int]));
        i += 1;
    }
    assert(more@.take(more@.len() as int) =~= more@);
}

fn seed(file: ClientConfig, environment: &Environment) -> (draft: Draft)
    ensures
        draft.content() == seeded(
            file@,
            opt(environment.servers),
            opt(environment.password),
            opt(environment.computer_name),
        ),
{
    let servers = file.servers_or_env(environment.servers);
    let pass = if !file.password.as_str().is_empty() {
        file.password
    } else {
        match environment.password {
            Some(password) => password.to_string(),
            None => String::new(),
        }
    };
    let hostname = match file.hostname {
        Some(name) => name,
        None => match environment.computer_name {
            Some(name) => name.to_string(),
            None => String::new(),
        },
    };
    let draft = Draft {
        args: Args {
            servers,
            user: file.account,
            pass,
            local_ip: file.local_ip,
            mac: match file.mac {
                Some(mac) => mac,
                None => adapter::DEFAULT_MAC,
            },
            hostname,
            dns: match file.dns {
                Some(address) => address,
                None => Ipv4Addr::new(10, 10, 10, 10),
            },
            dhcp: match file.dhcp {
                Some(address) => address,
                None => Ipv4Addr::unspecified(),
            },
            port: match file.server_port {
                Some(port) => port,
                None => 61440,
            },
            local_port: match file.local_port {
                Some(port) => port,
                None => 61440,
            },
            duration: 0,
            once: false,
            quiet: false,
            auth_route: match file.auth_route {
                Some(mode) => mode,
                None => RouteMode::Off,
            },
        },
        servers_from_flag: false,
    };
    draft
}

/// What a text that may be missing holds.
pub open spec fn opt(words: Option<&str>) -> Option<Seq<char>> {
    match words {
        Some(words) => Some(words@),
        None => None,
    }
}

impl Draft {
    fn switch(&mut self, flag: Flag)
        ensures
            final(self).content() == switched(flag, old(self).content()),
    {
        match flag {
            Flag::Once => {
                self.args.once = true;
            },
            Flag::AuthRoute => {
                self.args.auth_route = RouteMode::DryRun;
            },
            Flag::AuthRouteApply => {
                self.args.auth_route = RouteMode::Manage;
            },
            Flag::Quiet => {
                self.args.quiet = true;
            },
            _ => {},
        }
    }

    fn give(&mut self, flag: Flag, value: &str) -> (result: Result<(), String>)
        ensures
            match result {
                Ok(()) => given(flag, value@, old(self).content()) == Ok::<DraftView, Seq<char>>(
                    final(self).content(),
                ),
                Err(message) => given(flag, value@, old(self).content()) == Err::<
                    DraftView,
                    Seq<char>,
                >(message@),
            },
    {
        match flag {
            Flag::Server => {
                let servers = match parse_servers(value) {
                    Ok(servers) => servers,
                    Err(message) => return Err(message),
                };
                if self.servers_from_flag {
                    append_servers(&mut self.args.servers, &servers);
                } else {
                    self.args.servers = servers;
                }
                self.servers_from_flag = true;
            },
            Flag::User => {
                self.args.user = value.to_string();
            },
            Flag::Pass => {
                self.args.pass = value.to_string();
            },
            Flag::LocalIp => match net::parse_ipv4(&text::chars_of(value)) {
                None => return Err("--local-ip 不是有效的 IPv4 地址".to_string()),
                Some(address) => {
                    self.args.local_ip = Some(address);
                },
            },
            Flag::Mac => match parse_mac(value) {
                Err(message) => return Err(message),
                Ok(mac) => {
                    self.args.mac = mac;
                },
            },
            Flag::Hostname => {
                self.args.hostname = value.to_string();
            },
            Flag::Dns => match net::parse_ipv4(&text::chars_of(value)) {
                None => return Err("--dns 不是有效的 IPv4 地址".to_string()),
                Some(address) => {
                    self.args.dns = address;
                },
            },
            Flag::Dhcp => match net::parse_ipv4(&text::chars_of(value)) {
                None => return Err("--dhcp 不是有效的 IPv4 地址".to_string()),
                Some(address) => {
                    self.args.dhcp = address;
                },
            },
            Flag::Port => match text::parse_unsigned(&text::chars_of(value), 65535) {
                None => return Err("--port 不是有效端口".to_string()),
                Some(port) => {
                    self.args.port = port as u16;
                },
            },
            Flag::LocalPort => match text::parse_unsigned(&text::chars_of(value), 65535) {
                None => return Err("--local-port 不是有效端口".to_string()),
                Some(port) => {
                    self.args.local_port = port as u16;
                },
            },
            Flag::Duration => match text::parse_unsigned(&text::chars_of(value), u64::MAX) {
                None => return Err("--duration 需要秒数".to_string()),
                Some(seconds) => {
                    self.args.duration = seconds;
                },
            },
            _ => {},
        }
        Ok(())
    }
}

/// Reads the arguments. The file and the environment give what no flag gives.
pub fn parse_args(args: &[String], file: ClientConfig, environment: &Environment) -> (result:
    Result<Args, String>)
    ensures
        ({
            let run = run_of(
                text::string_views(args@),
                seeded(
                    file@,
                    opt(environment.servers),
                    opt(environment.password),
                    opt(environment.computer_name),
                ),
            );
            match result {
                Ok(parsed) => run == Ok::<ArgsView, Seq<char>>(parsed@),
                Err(message) => run == Err::<ArgsView, Seq<char>>(message@),
            }
        }),
{
    let ghost words = text::string_views(args@);
    let total: usize = args.len();
    let mut draft = seed(file, environment);
    let ghost start = draft.content();
    let mut i: usize = 0;
    assert(words.skip(0) =~= words);
    while i < total
        invariant
            total == args@.len(),
            words == text::string_views(args@),
            i <= total,
            read_flags(words, start) == read_flags(words.skip(i as int), draft.content()),
            run_of(words, start) == run_of(
                text::string_views(args@),
                seeded(
                    file@,
                    opt(environment.servers),
                    opt(environment.password),
                    opt(environment.computer_name),
                ),
            ),
        decreases total - i,
    {
        let ghost rest = words.skip(i as int);
        assert(rest.len() == total - i);
        assert(rest[0] == args@[i as int]@);
        let flag = match read_flag(&text::chars_of(&args[i])) {
            Some(flag) => flag,
            None => {
                let mut message = "未知参数 ".to_string();
                message.append(&args[i]);
                return Err(message);
            },
        };
        match flag {
            Flag::Once | Flag::AuthRoute | Flag::AuthRouteApply | Flag::Quiet => {
                draft.switch(flag);
                assert(rest.skip(1) =~= words.skip(i + 1));
                i += 1;
            },
            _ => {
                if i == total - 1 {
                    let mut message = args[i].clone();
                    message.append(" 缺少取值");
                    return Err(message);
                }
                assert(rest[1] == args@[i + 1]@);
                match draft.give(flag, &args[i + 1]) {
                    Ok(()) => {},
                    Err(message) => return Err(message),
                }
                assert(rest.skip(2) =~= words.skip(i + 2));
                i += 2;
            },
        }
    }
    assert(words.skip(total as int) =~= Seq::empty());
    if draft.args.user.as_str().is_empty() {
        return Err("必须用 --user 或配置文件里的 account 指定账号".to_string());
    }
    if draft.args.pass.as_str().is_empty() {
        return Err(
            "必须用 --pass、配置文件里的 password 或环境变量 DRCOM_PASSWORD 提供密码".to_string(),
        );
    }
    Ok(draft.args)
}

/// The address that a run reports: the one given, else the adapter's, else none.
pub open spec fn reported_address(args: ArgsView, found: Option<&AdapterInfo>) -> Ipv4Addr {
    match args.local_ip {
        Some(address) => address,
        None => match found {
            Some(found) => found.ipv4,
            None => net::unspecified(),
        },
    }
}

/// What is printed of the adapter that was found.
pub open spec fn adapter_line(found: &AdapterInfo) -> Seq<char> {
    "网卡 "@ + found.friendly_name@ + " ("@ + found.description@ + ")  IPv4 "@ + net::ipv4_text(
        found.ipv4,
    ) + "  MAC "@ + text::zero_filled(text::hexadecimal(found.mac as nat), 12) + "  IF "@
        + text::decimal(found.interface_index as nat)
}

/// What is printed of the session that is about to begin. The account is what the user typed; the
/// password is not shown.
pub open spec fn ready_line(args: ArgsView, address: Ipv4Addr) -> Seq<char> {
    "准备认证：服务器 "@ + text::joined(net::ipv4_texts(args.servers), ","@) + " 端口 "@
        + text::decimal(args.port as nat) + "，本机 "@ + net::ipv4_text(address) + "，账号 "@
        + args.user
}

/// What is printed where no address is known.
pub open spec fn unbound_line() -> Seq<char> {
    "提示：未检测到网卡 IPv4，套接字将绑定 0.0.0.0，建议用 --local-ip 指定"@
}

/// What is printed before a session begins.
pub open spec fn opening_lines(args: ArgsView, found: Option<&AdapterInfo>) -> Seq<Seq<char>> {
    let address = reported_address(args, found);
    (match found {
        Some(found) => seq![adapter_line(found)],
        None => Seq::empty(),
    }) + seq![ready_line(args, address)] + (if address == net::unspecified() {
        seq![unbound_line()]
    } else {
        Seq::empty()
    })
}

/// What the log says of a run. It is written to be shared, so the account is not in it.
pub open spec fn opening_record(args: ArgsView, found: Option<&AdapterInfo>) -> Seq<char> {
    "cli 启动：服务器 "@ + text::joined(net::ipv4_texts(args.servers), ","@) + " 端口 "@
        + text::decimal(args.port as nat) + "，本机 "@ + net::ipv4_text(
        reported_address(args, found),
    ) + "，网卡 "@ + match found {
        Some(found) => found.friendly_name@,
        None => "未检测到"@,
    }
}

/// Whether a configuration is that of a run.
pub open spec fn is_run_config(
    config: SessionConfig,
    args: ArgsView,
    found: Option<&AdapterInfo>,
) -> bool {
    &&& config.servers@ == args.servers
    &&& config.username@ == vstd::utf8::encode_utf8(args.user)
    &&& config.password@ == vstd::utf8::encode_utf8(args.pass)
    &&& config.server_port == args.port
    &&& config.local_port == args.local_port
    &&& config.local_ipv4 == reported_address(args, found)
    &&& config.hostname@ == vstd::utf8::encode_utf8(args.hostname)
    &&& config.mac == args.mac
    &&& config.primary_dns@ == args.dns.bytes()
    &&& config.dhcp_server@ == args.dhcp.bytes()
    &&& config.auth_route == args.auth_route
    &&& config.bind_ipv4 is None
    &&& config.auth_version@ == seq![0x68u8, 0x00]
    &&& config.keepalive_version@ == seq![0xdcu8, 0x02]
    &&& config.keepalive_checksum is Zero
    &&& config.control_status == 0x20
    &&& config.adapter_num == 0x03
    &&& config.ip_dog == 0x01
    &&& config.request_timeout_ms == 3000
    &&& config.keepalive_interval_ms == 20_000
    &&& config.keepalive_retries == 3
    &&& !config.allow_loopback_server
}

/// A session that is about to begin.
#[derive(Debug, Clone, PartialEq, Eq)]
pub struct Prepared {
    pub config: SessionConfig,
    /// What is printed.
    pub lines: Vec<String>,
    /// What is written to the log.
    pub record: String,
    /// What is printed as a warning.
    pub warning: Option<&'static str>,
}

/// What is said where route options are given to a run that logs in once.
pub open spec fn route_warning() -> Seq<char> {
    "提示：--auth-route / --auth-route-apply 只作用于完整会话，--once 已忽略它们"@
}

fn servers_text(servers: &[Ipv4Addr]) -> (shown: String)
    ensures
        shown@ == text::joined(net::ipv4_texts(servers@), ","@),
{
    text::join(&net::ipv4_strings(servers), ",")
}

fn adapter_text(found: &AdapterInfo) -> (line: String)
    ensures
        line@ == adapter_line(found),
{
    let mut line = "网卡 ".to_string();
    line.append(&found.friendly_name);
    line.append(" (");
    line.append(&found.description);
    line.append(")  IPv4 ");
    line.append(&net::ipv4_string(found.ipv4));
    line.append("  MAC ");
    line.append(&text::padded_hexadecimal(found.mac, 12));
    line.append("  IF ");
    line.append(&text::decimal_text(found.interface_index as u64));
    line
}

/// What is done before a session begins, given the adapter that was found.
pub fn prepare(args: &Args, found: Option<&AdapterInfo>) -> (prepared: Prepared)
    ensures
        is_run_config(prepared.config, args@, found),
        text::string_views(prepared.lines@) == opening_lines(args@, found),
        prepared.record@ == opening_record(args@, found),
        opt(prepared.warning) == (if args.once && !(args.auth_route is Off) {
            Some(route_warning())
        } else {
            None
        }),
{
    let address = match args.local_ip {
        Some(address) => address,
        None => match found {
            Some(found) => found.ipv4,
            None => Ipv4Addr::unspecified(),
        },
    };
    let mut servers: Vec<Ipv4Addr> = Vec::new();
    append_servers(&mut servers, &args.servers);
    assert(servers@ =~= args.servers@);
    let mut config = SessionConfig::new(
        servers,
        vstd::slice::slice_to_vec(args.user.as_str().as_bytes()),
        vstd::slice::slice_to_vec(args.pass.as_str().as_bytes()),
    );
    config.server_port = args.port;
    config.local_port = args.local_port;
    config.local_ipv4 = address;
    config.hostname = vstd::slice::slice_to_vec(args.hostname.as_str().as_bytes());
    config.mac = args.mac;
    config.primary_dns = args.dns.octets();
    config.dhcp_server = args.dhcp.octets();
    config.auth_route = args.auth_route;

    let listed_servers = servers_text(&args.servers);
    let mut lines: Vec<String> = Vec::new();
    if let Some(found) = found {
        lines.push(adapter_text(found));
    }
    let mut ready = "准备认证：服务器 ".to_string();
    ready.append(&listed_servers);
    ready.append(" 端口 ");
    ready.append(&text::decimal_text(args.port as u64));
    ready.append("，本机 ");
    ready.append(&net::ipv4_string(address));
    ready.append("，账号 ");
    ready.append(&args.user);
    lines.push(ready);
    if address.is_unspecified() {
        lines.push("提示：未检测到网卡 IPv4，套接字将绑定 0.0.0.0，建议用 --local-ip 指定".to_string());
    }
    assert(text::string_views(lines@) =~= opening_lines(args@, found));

    let mut record = "cli 启动：服务器 ".to_string();
    record.append(&listed_servers);
    record.append(" 端口 ");
    record.append(&text::decimal_text(args.port as u64));
    record.append("，本机 ");
    record.append(&net::ipv4_string(address));
    record.append("，网卡 ");
    record.append(
        match found {
            Some(found) => found.friendly_name.as_str(),
            None => "未检测到",
        },
    );
    let warning = if args.once && args.auth_route.is_enabled() {
        Some("提示：--auth-route / --auth-route-apply 只作用于完整会话，--once 已忽略它们")
    } else {
        None
    };
    Prepared { config, lines, record, warning }
}

/// The words for a phase.
pub open spec fn phase_words(phase: SessionPhase) -> Seq<char> {
    match phase {
        SessionPhase::Challenge => "请求挑战"@,
        SessionPhase::Authenticating => "发送登录报文"@,
        SessionPhase::Online => "认证成功，已上线"@,
        SessionPhase::KeepAlive => "保活中"@,
        SessionPhase::LoggedOut => "已下线"@,
    }
}

pub fn phase_text(phase: SessionPhase) -> (words: &'static str)
    ensures
        words@ == phase_words(phase),
{
    match phase {
        SessionPhase::Challenge => "请求挑战",
        SessionPhase::Authenticating => "发送登录报文",
        SessionPhase::Online => "认证成功，已上线",
        SessionPhase::KeepAlive => "保活中",
        SessionPhase::LoggedOut => "已下线",
    }
}

/// How long a session was online, in whole seconds.
pub fn format_duration(duration_ms: Option<u64>) -> (shown: String)
    ensures
        shown@ == (match duration_ms {
            Some(ms) => text::decimal((ms / 1000) as nat) + " 秒"@,
            None => "0 秒"@,
        }),
{
    match duration_ms {
        Some(ms) => {
            let mut shown = text::decimal_text(ms / 1000);
            shown.append(" 秒");
            shown
        },
        None => "0 秒".to_string(),
    }
}

/// What is printed when a run that was stopped in order is over.
pub fn closing_line(duration_ms: Option<u64>) -> (line: String)
    ensures
        line@ == "已下线，本次在线 "@ + (match duration_ms {
            Some(ms) => text::decimal((ms / 1000) as nat) + " 秒"@,
            None => "0 秒"@,
        }),
{
    let mut line = "已下线，本次在线 ".to_string();
    line.append(&format_duration(duration_ms));
    line
}

/// What is printed when the time of a run is up.
pub fn timer_line(seconds: u64) -> (line: String)
    ensures
        line@ == "已达 --duration "@ + text::decimal(seconds as nat) + " 秒，正在下线"@,
{
    let mut line = "已达 --duration ".to_string();
    line.append(&text::decimal_text(seconds));
    line.append(" 秒，正在下线");
    line
}

/// What is made of a report: what is printed, and what is written to the log.
#[derive(Debug, Clone, PartialEq, Eq)]
pub struct ReportLine {
    pub printed: Option<String>,
    pub recorded: Option<String>,
}

/// Tells a user what a session reports.
#[derive(Debug, Clone, PartialEq, Eq)]
pub struct Reporter {
    pub quiet: bool,
    pub last_phase: Option<SessionPhase>,
}

/// A line with the time since the beginning, which is handed in as text.
pub open spec fn timed(elapsed: Seq<char>, words: Seq<char>) -> Seq<char> {
    "["@ + elapsed + "s] "@ + words
}

/// What is said of a report.
pub open spec fn report_words(event: session::EventView) -> Seq<char> {
    match event {
        session::EventView::Phase(phase) => phase_words(phase),
        session::EventView::Note(note) => note,
        session::EventView::KeepAliveCycle { sequence, tail } => "保活完成，序号 "@ + text::decimal(
            sequence as nat,
        ) + "，尾码 "@ + text::hex(tail),
    }
}

/// Whether a report is told at all: a phase only when it changes, a note only where not quiet.
pub open spec fn is_told(event: session::EventView, quiet: bool, last: Option<SessionPhase>) -> bool {
    match event {
        session::EventView::Phase(phase) => last != Some(phase),
        session::EventView::Note(_) => !quiet,
        session::EventView::KeepAliveCycle { .. } => true,
    }
}

/// Whether a report that is told is printed. An unattended run still leaves its trail in the log.
pub open spec fn is_printed(event: session::EventView, quiet: bool) -> bool {
    !(event is KeepAliveCycle) || !quiet
}

fn timed_line(elapsed: &str, words: &str) -> (line: String)
    ensures
        line@ == timed(elapsed@, words@),
{
    let mut line = "[".to_string();
    line.append(elapsed);
    line.append("s] ");
    line.append(words);
    line
}

impl Reporter {
    pub fn new(quiet: bool) -> (reporter: Self)
        ensures
            reporter.quiet == quiet,
            reporter.last_phase is None,
    {
        Reporter { quiet, last_phase: None }
    }

    /// Takes a report in, with the seconds since the beginning as text.
    pub fn handle(&mut self, event: SessionEvent, elapsed: &str) -> (line: ReportLine)
        ensures
            final(self).quiet == old(self).quiet,
            final(self).last_phase == (match event {
                SessionEvent::Phase(phase) => Some(phase),
                _ => old(self).last_phase,
            }),
            ({
                let told = is_told(event@, old(self).quiet, old(self).last_phase);
                let words = timed(elapsed@, report_words(event@));
                &&& match line.printed {
                    Some(printed) => told && is_printed(event@, old(self).quiet) && printed@
                        == words,
                    None => !(told && is_printed(event@, old(self).quiet)),
                }
                &&& match line.recorded {
                    Some(recorded) => told && recorded@ == "cli "@ + words,
                    None => !told,
                }
            }),
    {
        let (told, printed, words) = match event {
            SessionEvent::Phase(phase) => {
                let told = match self.last_phase {
                    Some(last) => last != phase,
                    None => true,
                };
                self.last_phase = Some(phase);
                (told, true, phase_text(phase).to_string())
            },
            SessionEvent::Note(note) => (!self.quiet, true, note),
            SessionEvent::KeepAliveCycle { sequence, tail } => {
                let mut words = "保活完成，序号 ".to_string();
                words.append(&text::decimal_text(sequence as u64));
                words.append("，尾码 ");
                words.append(&text::hex_text(&tail));
                (true, !self.quiet, words)
            },
        };
        if !told {
            return ReportLine { printed: None, recorded: None };
        }
        let line = timed_line(elapsed, &words);
        let mut recorded = "cli ".to_string();
        recorded.append(&line);
        ReportLine {
            printed: if printed {
                Some(line)
            } else {
                None
            },
            recorded: Some(recorded),
        }
    }
}

/// How a run ends.
#[derive(Debug, Clone, PartialEq, Eq)]
pub struct Exit {
    pub success: bool,
    /// What is printed.
    pub printed: Option<String>,
    /// What is printed as an error.
    pub complaint: Option<String>,
    /// What is written to the log.
    pub record: String,
}

/// How a run ends. To be stopped is what the user asked for, so it is no failure. The server's
/// explanation of a rejection comes out of `converted`: the code units that the system's conversion
/// from code page 936 makes of its `message_bytes`.
pub fn finish(result: &Result<(), SessionError>, converted: &[u16]) -> (exit: Exit)
    ensures
        match *result {
            Ok(()) => exit.success && exit.printed is None && exit.complaint is None
                && exit.record@ == "cli 结束：正常"@,
            Err(SessionError::Stopped) => exit.success && (exit.printed matches Some(words)
                && words@ == "已按要求停止"@) && exit.complaint is None && exit.record@
                == "cli 结束：按要求停止"@,
            Err(error) => {
                let words = session::error_text(
                    error@,
                    session::explained(error@, converted@),
                );
                &&& !exit.success
                &&& exit.printed is None
                &&& exit.complaint matches Some(complaint) && complaint@ == "认证结束："@ + words
                &&& exit.record@ == "cli 失败："@ + words
            },
        },
{
    match result {
        Ok(()) => Exit {
            success: true,
            printed: None,
            complaint: None,
            record: "cli 结束：正常".to_string(),
        },
        Err(SessionError::Stopped) => Exit {
            success: true,
            printed: Some("已按要求停止".to_string()),
            complaint: None,
            record: "cli 结束：按要求停止".to_string(),
        },
        Err(error) => {
            let words = error.to_text(converted);
            let mut complaint = "认证结束：".to_string();
            complaint.append(&words);
            let mut record = "cli 失败：".to_string();
            record.append(&words);
            Exit { success: false, printed: None, complaint: Some(complaint), record }
        },
    }
}

/// What is printed and logged before a session does not depend on the password, and what is
/// logged does not depend on the account either.
pub proof fn law_the_password_is_never_shown(
    args: ArgsView,
    user: Seq<char>,
    pass: Seq<char>,
    found: Option<&AdapterInfo>,
)
    ensures
        opening_lines(args, found) == opening_lines((ArgsView { pass, ..args }), found),
        opening_record(args, found) == opening_record((ArgsView { user, pass, ..args }), found),
{
}

/// The first list of servers that a flag names replaces whatever the file and the environment
/// name; further lists are added to it.
pub proof fn law_a_server_flag_replaces_the_list(value: Seq<char>, draft: DraftView)
    requires
        servers_in(value) is Ok,
    ensures
        ({
            let next = given(Flag::Server, value, draft);
            let servers = servers_in(value)->Ok_0;
            &&& next is Ok
            &&& next->Ok_0.servers_from_flag
            &&& !draft.servers_from_flag ==> next->Ok_0.args.servers == servers
            &&& draft.servers_from_flag ==> next->Ok_0.args.servers == draft.args.servers + servers
        }),
{
}

/// The value that the last `flag` among the words gives, wherever it stands.
pub open spec fn last_given(words: Seq<Seq<char>>, flag: Flag) -> Option<Seq<char>>
    decreases words.len(),
{
    if words.len() == 0 {
        None
    } else {
        match flag_of(words[0]) {
            None => None,
            Some(first) => if stands_alone(first) {
                last_given(words.skip(1), flag)
            } else if words.len() == 1 {
                None
            } else {
                match last_given(words.skip(2), flag) {
                    Some(value) => Some(value),
                    None => if first == flag {
                        Some(words[1])
                    } else {
                        None
                    },
                }
            },
        }
    }
}

/// The servers that the `--server` flags among the words list, in the order of the flags.
pub open spec fn servers_given(words: Seq<Seq<char>>) -> Seq<Ipv4Addr>
    decreases words.len(),
{
    if words.len() == 0 {
        Seq::empty()
    } else {
        match flag_of(words[0]) {
            None => Seq::empty(),
            Some(first) => if stands_alone(first) {
                servers_given(words.skip(1))
            } else if words.len() == 1 {
                Seq::empty()
            } else if first is Server {
                servers_in(words[1])->Ok_0 + servers_given(words.skip(2))
            } else {
                servers_given(words.skip(2))
            },
        }
    }
}

/// What a flag gives is what the run has, wherever the flag stands; of several the last counts. Only
/// what no flag gives stays as it was.
pub proof fn law_the_last_flag_counts(words: Seq<Seq<char>>, draft: DraftView)
    requires
        read_flags(words, draft) is Ok,
    ensures
        ({
            let before = draft.args;
            let args = read_flags(words, draft)->Ok_0.args;
            &&& args.user == (match last_given(words, Flag::User) {
                Some(value) => value,
                None => before.user,
            })
            &&& args.pass == (match last_given(words, Flag::Pass) {
                Some(value) => value,
                None => before.pass,
            })
            &&& args.hostname == (match last_given(words, Flag::Hostname) {
                Some(value) => value,
                None => before.hostname,
            })
            &&& match last_given(words, Flag::LocalIp) {
                Some(value) => args.local_ip is Some && net::ipv4_of(value) == args.local_ip,
                None => args.local_ip == before.local_ip,
            }
            &&& match last_given(words, Flag::Mac) {
                Some(value) => mac_in(value) == Ok::<u64, Seq<char>>(args.mac),
                None => args.mac == before.mac,
            }
            &&& match last_given(words, Flag::Dns) {
                Some(value) => net::ipv4_of(value) == Some(args.dns),
                None => args.dns == before.dns,
            }
            &&& match last_given(words, Flag::Dhcp) {
                Some(value) => net::ipv4_of(value) == Some(args.dhcp),
                None => args.dhcp == before.dhcp,
            }
            &&& match last_given(words, Flag::Port) {
                Some(value) => text::unsigned_of(value, 65535) == Some(args.port as nat),
                None => args.port == before.port,
            }
            &&& match last_given(words, Flag::LocalPort) {
                Some(value) => text::unsigned_of(value, 65535) == Some(args.local_port as nat),
                None => args.local_port == before.local_port,
            }
            &&& match last_given(words, Flag::Duration) {
                Some(value) => text::unsigned_of(value, u64::MAX as nat) == Some(
                    args.duration as nat,
                ),
                None => args.duration == before.duration,
            }
        }),
    decreases words.len(),
{
    if words.len() > 0 {
        let flag = flag_of(words[0])->0;
        if stands_alone(flag) {
            law_the_last_flag_counts(words.skip(1), switched(flag, draft));
        } else {
            law_the_last_flag_counts(words.skip(2), given(flag, words[1], draft)->Ok_0);
        }
    }
}

/// The servers of a run that has a `--server` flag are those that its flags list, in the order of
/// the flags; without one they stay as they were.
pub proof fn law_server_flags_add_up(words: Seq<Seq<char>>, draft: DraftView)
    requires
        read_flags(words, draft) is Ok,
    ensures
        ({
            let next = read_flags(words, draft)->Ok_0;
            let named = last_given(words, Flag::Server) is Some;
            &&& next.servers_from_flag == (draft.servers_from_flag || named)
            &&& next.args.servers == (if draft.servers_from_flag {
                draft.args.servers + servers_given(words)
            } else if named {
                servers_given(words)
            } else {
                draft.args.servers
            })
            &&& !named ==> servers_given(words) == Seq::<Ipv4Addr>::empty()
        }),
    decreases words.len(),
{
    if words.len() == 0 {
        assert(draft.args.servers + Seq::<Ipv4Addr>::empty() =~= draft.args.servers);
    } else {
        let flag = flag_of(words[0])->0;
        if stands_alone(flag) {
            law_server_flags_add_up(words.skip(1), switched(flag, draft));
        } else {
            law_server_flags_add_up(words.skip(2), given(flag, words[1], draft)->Ok_0);
            if flag is Server {
                let listed = servers_in(words[1])->Ok_0;
                let later = servers_given(words.skip(2));
                assert(draft.args.servers + listed + later =~= draft.args.servers + (listed
                    + later));
                law_a_server_flag_replaces_the_list(words[1], draft);
            }
        }
    }
}

/// Flags win over the file and the environment: whatever these say, the same arguments are
/// accepted, the same complaint is made of them, and what a flag gives is the same. What `seeded`
/// makes of a file and an environment is such a draft without a server from a flag.
pub proof fn law_flags_win_over_the_file(
    words: Seq<Seq<char>>,
    draft: DraftView,
    other: DraftView,
)
    requires
        !draft.servers_from_flag,
        !other.servers_from_flag,
    ensures
        match read_flags(words, draft) {
            Err(message) => read_flags(words, other) == Err::<DraftView, Seq<char>>(message),
            Ok(next) => {
                &&& read_flags(words, other) is Ok
                &&& given_alike(words, next.args, read_flags(words, other)->Ok_0.args)
            },
        },
{
    lemma_complaints_are_alike(words, draft, other);
    if read_flags(words, draft) is Ok {
        law_the_last_flag_counts(words, draft);
        law_the_last_flag_counts(words, other);
        law_server_flags_add_up(words, draft);
        law_server_flags_add_up(words, other);
    }
}

/// Whether two runs agree on everything that a flag among the words gives a value.
pub open spec fn given_alike(words: Seq<Seq<char>>, a: ArgsView, b: ArgsView) -> bool {
    &&& last_given(words, Flag::Server) is Some ==> a.servers == b.servers && a.servers
        == servers_given(words)
    &&& last_given(words, Flag::User) is Some ==> a.user == b.user
    &&& last_given(words, Flag::Pass) is Some ==> a.pass == b.pass
    &&& last_given(words, Flag::LocalIp) is Some ==> a.local_ip == b.local_ip
    &&& last_given(words, Flag::Mac) is Some ==> a.mac == b.mac
    &&& last_given(words, Flag::Hostname) is Some ==> a.hostname == b.hostname
    &&& last_given(words, Flag::Dns) is Some ==> a.dns == b.dns
    &&& last_given(words, Flag::Dhcp) is Some ==> a.dhcp == b.dhcp
    &&& last_given(words, Flag::Port) is Some ==> a.port == b.port
    &&& last_given(words, Flag::LocalPort) is Some ==> a.local_port == b.local_port
    &&& last_given(words, Flag::Duration) is Some ==> a.duration == b.duration
}

proof fn lemma_complaints_are_alike(words: Seq<Seq<char>>, a: DraftView, b: DraftView)
    ensures
        match read_flags(words, a) {
            Err(message) => read_flags(words, b) == Err::<DraftView, Seq<char>>(message),
            Ok(_) => read_flags(words, b) is Ok,
        },
    decreases words.len(),
{
    if words.len() > 0 && flag_of(words[0]) is Some {
        let flag = flag_of(words[0])->0;
        if stands_alone(flag) {
            lemma_complaints_are_alike(words.skip(1), switched(flag, a), switched(flag, b));
        } else if words.len() > 1 && given(flag, words[1], a) is Ok {
            lemma_complaints_are_alike(
                words.skip(2),
                given(flag, words[1], a)->Ok_0,
                given(flag, words[1], b)->Ok_0,
            );
        }
    }
}

/// Each flag is one word, written in full; no other word is a flag.
pub proof fn law_the_words_of_the_flags(word: Seq<char>)
    ensures
        flag_of(word) == Some(Flag::Config) <==> word == "--config"@,
        flag_of(word) == Some(Flag::Server) <==> word == "--server"@,
        flag_of(word) == Some(Flag::User) <==> word == "--user"@,
        flag_of(word) == Some(Flag::Pass) <==> word == "--pass"@,
        flag_of(word) == Some(Flag::LocalIp) <==> word == "--local-ip"@,
        flag_of(word) == Some(Flag::Mac) <==> word == "--mac"@,
        flag_of(word) == Some(Flag::Hostname) <==> word == "--hostname"@,
        flag_of(word) == Some(Flag::Dns) <==> word == "--dns"@,
        flag_of(word) == Some(Flag::Dhcp) <==> word == "--dhcp"@,
        flag_of(word) == Some(Flag::Port) <==> word == "--port"@,
        flag_of(word) == Some(Flag::LocalPort) <==> word == "--local-port"@,
        flag_of(word) == Some(Flag::Duration) <==> word == "--duration"@,
        flag_of(word) == Some(Flag::Once) <==> word == "--once"@,
        flag_of(word) == Some(Flag::AuthRoute) <==> word == "--auth-route"@,
        flag_of(word) == Some(Flag::AuthRouteApply) <==> word == "--auth-route-apply"@,
        flag_of(word) == Some(Flag::Quiet) <==> word == "--quiet"@,
{
    lemma_flag_lengths();
    lemma_flags_differ();
}

proof fn lemma_flag_lengths()
    ensures
        "--config"@.len() == 8,
        "--server"@.len() == 8,
        "--user"@.len() == 6,
        "--pass"@.len() == 6,
        "--local-ip"@.len() == 10,
        "--mac"@.len() == 5,
        "--hostname"@.len() == 10,
        "--dns"@.len() == 5,
        "--dhcp"@.len() == 6,
        "--port"@.len() == 6,
        "--local-port"@.len() == 12,
        "--duration"@.len() == 10,
        "--once"@.len() == 6,
        "--auth-route"@.len() == 12,
        "--auth-route-apply"@.len() == 18,
        "--quiet"@.len() == 7,
{
    reveal_strlit("--config");
    reveal_strlit("--server");
    reveal_strlit("--user");
    reveal_strlit("--pass");
    reveal_strlit("--local-ip");
    reveal_strlit("--mac");
    reveal_strlit("--hostname");
    reveal_strlit("--dns");
    reveal_strlit("--dhcp");
    reveal_strlit("--port");
    reveal_strlit("--local-port");
    reveal_strlit("--duration");
    reveal_strlit("--once");
    reveal_strlit("--auth-route");
    reveal_strlit("--auth-route-apply");
    reveal_strlit("--quiet");
}

proof fn lemma_flags_differ()
    ensures
        "--server"@ != "--config"@,
        "--pass"@ != "--user"@,
        "--dhcp"@ != "--user"@,
        "--port"@ != "--user"@,
        "--once"@ != "--user"@,
        "--dhcp"@ != "--pass"@,
        "--port"@ != "--pass"@,
        "--once"@ != "--pass"@,
        "--hostname"@ != "--local-ip"@,
        "--duration"@ != "--local-ip"@,
        "--dns"@ != "--mac"@,
        "--duration"@ != "--hostname"@,
        "--port"@ != "--dhcp"@,
        "--once"@ != "--dhcp"@,
        "--once"@ != "--port"@,
        "--auth-route"@ != "--local-port"@,
{
    assert("--server"@ != "--config"@) by {
        reveal_strlit("--server");
        reveal_strlit("--config");
        assert("--server"@[2] != "--config"@[2]);
    }
    assert("--pass"@ != "--user"@) by {
        reveal_strlit("--pass");
        reveal_strlit("--user");
        assert("--pass"@[2] != "--user"@[2]);
    }
    assert("--dhcp"@ != "--user"@) by {
        reveal_strlit("--dhcp");
        reveal_strlit("--user");
        assert("--dhcp"@[2] != "--user"@[2]);
    }
    assert("--port"@ != "--user"@) by {
        reveal_strlit("--port");
        reveal_strlit("--user");
        assert("--port"@[2] != "--user"@[2]);
    }
    assert("--once"@ != "--user"@) by {
        reveal_strlit("--once");
        reveal_strlit("--user");
        assert("--once"@[2] != "--user"@[2]);
    }
    assert("--dhcp"@ != "--pass"@) by {
        reveal_strlit("--dhcp");
        reveal_strlit("--pass");
        assert("--dhcp"@[2] != "--pass"@[2]);
    }
    assert("--port"@ != "--pass"@) by {
        reveal_strlit("--port");
        reveal_strlit("--pass");
        assert("--port"@[3] != "--pass"@[3]);
    }
    assert("--once"@ != "--pass"@) by {
        reveal_strlit("--once");
        reveal_strlit("--pass");
        assert("--once"@[2] != "--pass"@[2]);
    }
    assert("--hostname"@ != "--local-ip"@) by {
        reveal_strlit("--hostname");
        reveal_strlit("--local-ip");
        assert("--hostname"@[2] != "--local-ip"@[2]);
    }
    assert("--duration"@ != "--local-ip"@) by {
        reveal_strlit("--duration");
        reveal_strlit("--local-ip");
        assert("--duration"@[2] != "--local-ip"@[2]);
    }
    assert("--dns"@ != "--mac"@) by {
        reveal_strlit("--dns");
        reveal_strlit("--mac");
        assert("--dns"@[2] != "--mac"@[2]);
    }
    assert("--duration"@ != "--hostname"@) by {
        reveal_strlit("--duration");
        reveal_strlit("--hostname");
        assert("--duration"@[2] != "--hostname"@[2]);
    }
    assert("--port"@ != "--dhcp"@) by {
        reveal_strlit("--port");
        reveal_strlit("--dhcp");
        assert("--port"@[2] != "--dhcp"@[2]);
    }
    assert("--once"@ != "--dhcp"@) by {
        reveal_strlit("--once");
        reveal_strlit("--dhcp");
        assert("--once"@[2] != "--dhcp"@[2]);
    }
    assert("--once"@ != "--port"@) by {
        reveal_strlit("--once");
        reveal_strlit("--port");
        assert("--once"@[2] != "--port"@[2]);
    }
    assert("--auth-route"@ != "--local-port"@) by {
        reveal_strlit("--auth-route");
        reveal_strlit("--local-port");
        assert("--auth-route"@[2] != "--local-port"@[2]);
    }
}

/// The four switches stand alone, each sets one thing and leaves the rest; every other flag takes
/// the word behind it.
pub proof fn law_what_the_switches_set(draft: DraftView, flag: Flag)
    ensures
        stands_alone(flag) <==> (flag == Flag::Once || flag == Flag::Quiet || flag
            == Flag::AuthRoute || flag == Flag::AuthRouteApply),
        switched(Flag::Once, draft) == (DraftView {
            args: ArgsView { once: true, ..draft.args },
            servers_from_flag: draft.servers_from_flag,
        }),
        switched(Flag::Quiet, draft) == (DraftView {
            args: ArgsView { quiet: true, ..draft.args },
            servers_from_flag: draft.servers_from_flag,
        }),
        switched(Flag::AuthRoute, draft) == (DraftView {
            args: ArgsView { auth_route: RouteMode::DryRun, ..draft.args },
            servers_from_flag: draft.servers_from_flag,
        }),
        switched(Flag::AuthRouteApply, draft) == (DraftView {
            args: ArgsView { auth_route: RouteMode::Manage, ..draft.args },
            servers_from_flag: draft.servers_from_flag,
        }),
{
}

/// Words are taken as they stand and set one thing each, whatever they hold; the word behind
/// `--config` sets nothing here.
pub proof fn law_what_words_set(draft: DraftView, word: Seq<char>)
    ensures
        given(Flag::User, word, draft) == Ok::<DraftView, Seq<char>>(
            DraftView { args: ArgsView { user: word, ..draft.args }, ..draft },
        ),
        given(Flag::Pass, word, draft) == Ok::<DraftView, Seq<char>>(
            DraftView { args: ArgsView { pass: word, ..draft.args }, ..draft },
        ),
        given(Flag::Hostname, word, draft) == Ok::<DraftView, Seq<char>>(
            DraftView { args: ArgsView { hostname: word, ..draft.args }, ..draft },
        ),
        given(Flag::Config, word, draft) == Ok::<DraftView, Seq<char>>(draft),
{
}

/// Addresses are taken in dotted notation and set one thing each; what is no address is refused
/// with the name of its flag.
pub proof fn law_what_addresses_set(draft: DraftView, address: Ipv4Addr, word: Seq<char>)
    requires
        forall|other: Ipv4Addr| word != #[trigger] net::ipv4_text(other),
    ensures
        given(Flag::LocalIp, net::ipv4_text(address), draft) == Ok::<DraftView, Seq<char>>(
            DraftView { args: ArgsView { local_ip: Some(address), ..draft.args }, ..draft },
        ),
        given(Flag::Dns, net::ipv4_text(address), draft) == Ok::<DraftView, Seq<char>>(
            DraftView { args: ArgsView { dns: address, ..draft.args }, ..draft },
        ),
        given(Flag::Dhcp, net::ipv4_text(address), draft) == Ok::<DraftView, Seq<char>>(
            DraftView { args: ArgsView { dhcp: address, ..draft.args }, ..draft },
        ),
        given(Flag::LocalIp, word, draft) == Err::<DraftView, Seq<char>>(
            "--local-ip 不是有效的 IPv4 地址"@,
        ),
        given(Flag::Dns, word, draft) == Err::<DraftView, Seq<char>>(
            "--dns 不是有效的 IPv4 地址"@,
        ),
        given(Flag::Dhcp, word, draft) == Err::<DraftView, Seq<char>>(
            "--dhcp 不是有效的 IPv4 地址"@,
        ),
{
    net::law_dotted_notation_is_read_back(address);
}

/// Ports are numbers up to 65535 and durations numbers up to the largest of 64 bits; each sets one
/// thing, and what is no such number is refused with the name of its flag.
pub proof fn law_what_numbers_set(draft: DraftView, word: Seq<char>)
    ensures
        match text::unsigned_of(word, 65535) {
            Some(port) => {
                &&& given(Flag::Port, word, draft) == Ok::<DraftView, Seq<char>>(
                    DraftView { args: ArgsView { port: port as u16, ..draft.args }, ..draft },
                )
                &&& given(Flag::LocalPort, word, draft) == Ok::<DraftView, Seq<char>>(
                    DraftView { args: ArgsView { local_port: port as u16, ..draft.args }, ..draft },
                )
            },
            None => {
                &&& given(Flag::Port, word, draft) == Err::<DraftView, Seq<char>>(
                    "--port 不是有效端口"@,
                )
                &&& given(Flag::LocalPort, word, draft) == Err::<DraftView, Seq<char>>(
                    "--local-port 不是有效端口"@,
                )
            },
        },
        match text::unsigned_of(word, 0xffff_ffff_ffff_ffff) {
            Some(seconds) => given(Flag::Duration, word, draft) == Ok::<DraftView, Seq<char>>(
                DraftView { args: ArgsView { duration: seconds as u64, ..draft.args }, ..draft },
            ),
            None => given(Flag::Duration, word, draft) == Err::<DraftView, Seq<char>>(
                "--duration 需要秒数"@,
            ),
        },
{
}

/// A MAC has one to twelve hexadecimal digits, and zero stands for the default one.
pub proof fn law_what_a_mac_sets(draft: DraftView, word: Seq<char>)
    ensures
        ({
            let digits = config::mac_digits(word);
            let number = text::hex_value(digits);
            &&& digits.len() == 0 || digits.len() >= 13 ==> given(Flag::Mac, word, draft) == Err::<
                DraftView,
                Seq<char>,
            >("MAC 无效："@ + word)
            &&& 1 <= digits.len() <= 12 && number != 0 ==> given(Flag::Mac, word, draft) == Ok::<
                DraftView,
                Seq<char>,
            >(DraftView { args: ArgsView { mac: number as u64, ..draft.args }, ..draft })
            &&& 1 <= digits.len() <= 12 && number == 0 ==> given(Flag::Mac, word, draft) == Ok::<
                DraftView,
                Seq<char>,
            >(DraftView { args: ArgsView { mac: 0x8888_8888_8888, ..draft.args }, ..draft })
        }),
{
}

/// A list of servers is taken where every part between its commas is an address, with or without
/// white space around it, and then it is those addresses in order; else the first part that is none
/// is named as it stands.
pub proof fn law_what_a_server_list_comes_to(parts: Seq<Seq<char>>, n: nat)
    requires
        n <= parts.len(),
    ensures
        listed(parts, n) is Ok <==> forall|i: int|
            0 <= i < n ==> net::ipv4_of(text::trimmed(#[trigger] parts[i])) is Some,
        listed(parts, n) matches Ok(addresses) ==> addresses.len() == n && forall|i: int|
            0 <= i < n ==> Some(addresses[i]) == net::ipv4_of(text::trimmed(#[trigger] parts[i])),
        listed(parts, n) matches Err(message) ==> exists|i: int|
            {
                &&& 0 <= i < n
                &&& net::ipv4_of(text::trimmed(#[trigger] parts[i])) is None
                &&& message == "服务器地址无效："@ + parts[i]
                &&& forall|j: int|
                    0 <= j < i ==> net::ipv4_of(text::trimmed(#[trigger] parts[j])) is Some
            },
    decreases n,
{
    if n > 0 {
        law_what_a_server_list_comes_to(parts, (n - 1) as nat);
        assert(parts[n - 1] == parts[n - 1]);
        if listed(parts, (n - 1) as nat) is Err {
            let message = listed(parts, (n - 1) as nat)->Err_0;
            let i = choose|i: int|
                {
                    &&& 0 <= i < n - 1
                    &&& net::ipv4_of(text::trimmed(#[trigger] parts[i])) is None
                    &&& message == "服务器地址无效："@ + parts[i]
                    &&& forall|j: int|
                        0 <= j < i ==> net::ipv4_of(text::trimmed(#[trigger] parts[j])) is Some
                };
            assert(0 <= i < n && net::ipv4_of(text::trimmed(parts[i])) is None);
        }
    }
}

/// Before any flag, what the file says counts; where it says nothing, the environment gives the
/// servers, the password and the name of the machine; everything else has its default.
pub proof fn law_what_a_run_begins_with(
    file: ConfigView,
    servers: Option<Seq<char>>,
    password: Option<Seq<char>>,
    computer_name: Option<Seq<char>>,
)
    ensures
        ({
            let draft = seeded(file, servers, password, computer_name);
            let args = draft.args;
            &&& !draft.servers_from_flag
            &&& args.servers == config::chosen_servers(file.servers, servers)
            &&& args.user == file.account
            &&& file.password.len() > 0 ==> args.pass == file.password
            &&& file.password.len() == 0 && password is Some ==> args.pass == password->0
            &&& file.password.len() == 0 && password is None ==> args.pass.len() == 0
            &&& args.local_ip == file.local_ip
            &&& file.mac is Some ==> args.mac == file.mac->0
            &&& file.mac is None ==> args.mac == 0x8888_8888_8888
            &&& file.hostname is Some ==> args.hostname == file.hostname->0
            &&& file.hostname is None && computer_name is Some ==> args.hostname == computer_name->0
            &&& file.hostname is None && computer_name is None ==> args.hostname.len() == 0
            &&& file.dns is Some ==> args.dns == file.dns->0
            &&& file.dns is None ==> args.dns == (Ipv4Addr { a: 10, b: 10, c: 10, d: 10 })
            &&& file.dhcp is Some ==> args.dhcp == file.dhcp->0
            &&& file.dhcp is None ==> args.dhcp == (Ipv4Addr { a: 0, b: 0, c: 0, d: 0 })
            &&& file.server_port is Some ==> args.port == file.server_port->0
            &&& file.server_port is None ==> args.port == 61440
            &&& file.local_port is Some ==> args.local_port == file.local_port->0
            &&& file.local_port is None ==> args.local_port == 61440
            &&& args.duration == 0 && !args.once && !args.quiet
            &&& file.auth_route is Some ==> args.auth_route == file.auth_route->0
            &&& file.auth_route is None ==> args.auth_route == RouteMode::Off
        }),
{
}

/// Arguments are read from the left: a word that is no flag, or a flag whose value is missing, is
/// named in the complaint; nothing behind a complaint counts.
pub proof fn law_arguments_are_read_in_order(
    words: Seq<Seq<char>>,
    word: Seq<char>,
    value: Seq<char>,
    draft: DraftView,
)
    ensures
        read_flags(Seq::empty(), draft) == Ok::<DraftView, Seq<char>>(draft),
        flag_of(word) is None ==> read_flags(seq![word] + words, draft) == Err::<
            DraftView,
            Seq<char>,
        >("未知参数 "@ + word),
        flag_of(word) matches Some(flag) ==> {
            &&& stands_alone(flag) ==> read_flags(seq![word] + words, draft) == read_flags(
                words,
                switched(flag, draft),
            )
            &&& !stands_alone(flag) ==> read_flags(seq![word], draft) == Err::<
                DraftView,
                Seq<char>,
            >(word + " 缺少取值"@)
            &&& !stands_alone(flag) ==> read_flags(seq![word, value] + words, draft) == (
            match given(flag, value, draft) {
                Ok(next) => read_flags(words, next),
                Err(message) => Err(message),
            })
        },
{
    assert((seq![word] + words).skip(1) =~= words);
    assert((seq![word, value] + words).skip(2) =~= words);
}

/// A run has an account and a password; the account is asked for first.
pub proof fn law_a_run_has_credentials(words: Seq<Seq<char>>, draft: DraftView)
    ensures
        match read_flags(words, draft) {
            Err(message) => run_of(words, draft) == Err::<ArgsView, Seq<char>>(message),
            Ok(next) => {
                &&& next.args.user.len() == 0 ==> run_of(words, draft) == Err::<
                    ArgsView,
                    Seq<char>,
                >("必须用 --user 或配置文件里的 account 指定账号"@)
                &&& next.args.user.len() > 0 && next.args.pass.len() == 0 ==> run_of(words, draft)
                    == Err::<ArgsView, Seq<char>>(
                    "必须用 --pass、配置文件里的 password 或环境变量 DRCOM_PASSWORD 提供密码"@,
                )
                &&& next.args.user.len() > 0 && next.args.pass.len() > 0 ==> run_of(words, draft)
                    == Ok::<ArgsView, Seq<char>>(next.args)
            },
        },
{
}

/// The file that the arguments name stands behind the first `--config`.
pub proof fn law_the_first_config_flag_counts(before: Seq<Seq<char>>, behind: Seq<Seq<char>>)
    requires
        forall|i: int| 0 <= i < before.len() ==> #[trigger] before[i] != "--config"@,
    ensures
        config_flag(before + seq!["--config"@] + behind) == before.len(),
        config_flag(before) == before.len(),
    decreases before.len(),
{
    let words = before + seq!["--config"@] + behind;
    if before.len() == 0 {
        assert(words[0] == "--config"@);
    } else {
        assert(words[0] == before[0]);
        law_the_first_config_flag_counts(before.skip(1), behind);
        assert(words.skip(1) =~= before.skip(1) + seq!["--config"@] + behind);
    }
}

/// The address of a run is the one given, else that of the adapter that was found, else none; only
/// in the last case, or where it is given as `0.0.0.0`, the user is warned.
pub proof fn law_the_address_of_a_run(args: ArgsView, found: Option<&AdapterInfo>)
    ensures
        ({
            let address = reported_address(args, found);
            let lines = opening_lines(args, found);
            let shown: int = if found is Some {
                1
            } else {
                0
            };
            let warned = address.a == 0 && address.b == 0 && address.c == 0 && address.d == 0;
            &&& args.local_ip is Some ==> address == args.local_ip->0
            &&& args.local_ip is None && found is Some ==> address == found->0.ipv4
            &&& args.local_ip is None && found is None ==> warned
            &&& lines.len() == shown + (if warned {
                2int
            } else {
                1
            })
            &&& lines[shown] == ready_line(args, address)
            &&& found is Some ==> lines[0] == adapter_line(found->0)
            &&& warned ==> lines.last() == unbound_line()
        }),
{
}

/// A phase is told when it changes, a note unless the run is quiet, and a round of the keep-alive
/// always, though a quiet run does not print it.
pub proof fn law_what_is_told(
    event: session::EventView,
    quiet: bool,
    last: Option<SessionPhase>,
)
    ensures
        event matches session::EventView::Phase(phase) ==> {
            &&& is_told(event, quiet, last) <==> (last is None || last->0 != phase)
            &&& is_printed(event, quiet)
        },
        event matches session::EventView::Note(words) ==> {
            &&& is_told(event, quiet, last) <==> !quiet
            &&& is_printed(event, quiet)
            &&& report_words(event) == words
        },
        event matches session::EventView::KeepAliveCycle { sequence, tail } ==> {
            &&& is_told(event, quiet, last)
            &&& is_printed(event, quiet) <==> !quiet
            &&& report_words(event) == "保活完成，序号 "@ + text::decimal(sequence as nat)
                + "，尾码 "@ + text::hex(tail)
        },
        report_words(session::EventView::Phase(SessionPhase::Challenge)) == "请求挑战"@,
        report_words(session::EventView::Phase(SessionPhase::Authenticating)) == "发送登录报文"@,
        report_words(session::EventView::Phase(SessionPhase::Online)) == "认证成功，已上线"@,
        report_words(session::EventView::Phase(SessionPhase::KeepAlive)) == "保活中"@,
        report_words(session::EventView::Phase(SessionPhase::LoggedOut)) == "已下线"@,
{
}

/// A timed line is the seconds in brackets, a blank and the words.
pub proof fn law_the_layout_of_a_timed_line(elapsed: Seq<char>, words: Seq<char>)
    ensures
        ({
            let line = timed(elapsed, words);
            let n = elapsed.len() as int;
            &&& line.len() == n + 4 + words.len()
            &&& line[0] == '['
            &&& line.subrange(1, n + 1) == elapsed
            &&& line[n + 1] == 's' && line[n + 2] == ']' && line[n + 3] == ' '
            &&& line.skip(n + 4) == words
        }),
{
    reveal_strlit("[");
    reveal_strlit("s] ");
    let line = timed(elapsed, words);
    let n = elapsed.len() as int;
    assert(line.subrange(1, n + 1) =~= elapsed);
    assert(line.skip(n + 4) =~= words);
}

/// A run is configured by what was given, each value in its own place, and the rest is fixed.
pub proof fn law_how_a_run_is_configured(
    config: SessionConfig,
    args: ArgsView,
    found: Option<&AdapterInfo>,
)
    requires
        is_run_config(config, args, found),
    ensures
        config.servers@ == args.servers,
        config.username@ == vstd::utf8::encode_utf8(args.user),
        config.password@ == vstd::utf8::encode_utf8(args.pass),
        config.hostname@ == vstd::utf8::encode_utf8(args.hostname),
        config.server_port == args.port,
        config.local_port == args.local_port,
        config.mac == args.mac,
        args.local_ip is Some ==> config.local_ipv4 == args.local_ip->0,
        args.local_ip is None && found is Some ==> config.local_ipv4 == found->0.ipv4,
        config.primary_dns@ == seq![args.dns.a, args.dns.b, args.dns.c, args.dns.d],
        config.dhcp_server@ == seq![args.dhcp.a, args.dhcp.b, args.dhcp.c, args.dhcp.d],
        config.auth_route == args.auth_route,
        config.bind_ipv4 is None && !config.allow_loopback_server,
        config.request_timeout_ms == 3000 && config.keepalive_interval_ms == 20000
            && config.keepalive_retries == 3,
{
}

} // verus!
