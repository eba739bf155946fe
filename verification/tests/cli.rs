use drcom_campus::adapter::{AdapterInfo, NetworkDetails};
use drcom_campus::cli::{
    argument_error, closing_line, config_path, finish, format_duration, loaded_config,
    missing_config, parse_args, parse_mac, parse_servers, phase_text, prepare, timer_line,
    wants_help, Args, Environment, Reporter, USAGE,
};
use drcom_campus::config::{parse, ClientConfig};
use drcom_campus::net::Ipv4Addr;
use drcom_campus::route::RouteMode;
use drcom_campus::session::{SessionError, SessionEvent, SessionPhase};

fn words(line: &str) -> Vec<String> {
    line.split_whitespace().map(str::to_string).collect()
}

fn bare() -> Environment<'static> {
    Environment {
        servers: None,
        password: None,
        computer_name: None,
    }
}

fn read(line: &str) -> Result<Args, String> {
    parse_args(&words(line), ClientConfig::default(), &bare())
}

fn adapter() -> AdapterInfo {
    AdapterInfo {
        friendly_name: "以太网".to_string(),
        description: "Realtek".to_string(),
        ipv4: Ipv4Addr::new(10, 100, 61, 20),
        mac: 0x11_2233_4455,
        is_wireless: false,
        has_gateway: true,
        interface_index: 7,
        details: NetworkDetails::default(),
    }
}

#[test]
fn defaults_fill_what_no_flag_gives() {
    let args = read("--user u --pass p").unwrap();
    assert_eq!(args.servers, vec![Ipv4Addr::new(10, 100, 61, 3)]);
    assert_eq!(args.user, "u");
    assert_eq!(args.pass, "p");
    assert_eq!(args.local_ip, None);
    assert_eq!(args.mac, 0x8888_8888_8888);
    assert_eq!(args.hostname, "");
    assert_eq!(args.dns, Ipv4Addr::new(10, 10, 10, 10));
    assert_eq!(args.dhcp, Ipv4Addr::unspecified());
    assert_eq!(args.port, 61440);
    assert_eq!(args.local_port, 61440);
    assert_eq!(args.duration, 0);
    assert!(!args.once && !args.quiet);
    assert_eq!(args.auth_route, RouteMode::Off);
}

#[test]
fn every_flag_sets_its_field() {
    let args = read(
        "--config x.ini --server 10.0.0.1,10.0.0.2 --server 10.0.0.3 --user u --pass p \
         --local-ip 10.0.0.9 --mac aa:bb:cc:dd:ee:ff --hostname PC --dns 1.1.1.1 \
         --dhcp 10.0.0.254 --port 6000 --local-port 0 --duration 60 --once --quiet \
         --auth-route-apply",
    )
    .unwrap();
    assert_eq!(
        args.servers,
        vec![
            Ipv4Addr::new(10, 0, 0, 1),
            Ipv4Addr::new(10, 0, 0, 2),
            Ipv4Addr::new(10, 0, 0, 3)
        ]
    );
    assert_eq!(args.local_ip, Some(Ipv4Addr::new(10, 0, 0, 9)));
    assert_eq!(args.mac, 0xaabb_ccdd_eeff);
    assert_eq!(args.hostname, "PC");
    assert_eq!(args.dns, Ipv4Addr::new(1, 1, 1, 1));
    assert_eq!(args.dhcp, Ipv4Addr::new(10, 0, 0, 254));
    assert_eq!(args.port, 6000);
    assert_eq!(args.local_port, 0);
    assert_eq!(args.duration, 60);
    assert!(args.once && args.quiet);
    assert_eq!(args.auth_route, RouteMode::Manage);
    assert_eq!(
        read("--user u --pass p --auth-route").unwrap().auth_route,
        RouteMode::DryRun
    );
}

#[test]
fn flags_win_over_the_file_and_the_file_over_the_environment() {
    let file = parse("auth_server=10.0.0.9\naccount=file\npassword=secret\nhostname=F\n").unwrap();
    let environment = Environment {
        servers: Some("10.0.0.1"),
        password: Some("env"),
        computer_name: Some("E"),
    };
    let args = parse_args(&words("--user flag"), file.clone(), &environment).unwrap();
    assert_eq!(args.servers, vec![Ipv4Addr::new(10, 0, 0, 9)]);
    assert_eq!(args.user, "flag");
    assert_eq!(args.pass, "secret");
    assert_eq!(args.hostname, "F");
    let args = parse_args(&words("--server 10.0.0.2"), file, &environment).unwrap();
    assert_eq!(args.servers, vec![Ipv4Addr::new(10, 0, 0, 2)]);
    let args = parse_args(&words("--user u"), ClientConfig::default(), &environment).unwrap();
    assert_eq!(args.servers, vec![Ipv4Addr::new(10, 0, 0, 1)]);
    assert_eq!(args.pass, "env");
    assert_eq!(args.hostname, "E");
}

#[test]
fn each_complaint_names_its_argument() {
    for (line, complaint) in [
        ("--bogus", "未知参数 --bogus"),
        ("--user", "--user 缺少取值"),
        ("--server 10.0.0.1,x", "服务器地址无效：x"),
        ("--local-ip x", "--local-ip 不是有效的 IPv4 地址"),
        ("--mac zz", "MAC 无效：zz"),
        ("--dns x", "--dns 不是有效的 IPv4 地址"),
        ("--dhcp x", "--dhcp 不是有效的 IPv4 地址"),
        ("--port 65536", "--port 不是有效端口"),
        ("--local-port x", "--local-port 不是有效端口"),
        ("--duration x", "--duration 需要秒数"),
        ("--pass p", "必须用 --user 或配置文件里的 account 指定账号"),
        (
            "--user u",
            "必须用 --pass、配置文件里的 password 或环境变量 DRCOM_PASSWORD 提供密码",
        ),
    ] {
        assert_eq!(read(line), Err(complaint.to_string()), "{line}");
    }
    assert_eq!(
        argument_error("x"),
        format!("参数错误：x\n\n{USAGE}")
    );
}

#[test]
fn hardware_addresses_are_read_in_three_notations() {
    for text in ["aa:bb:cc:dd:ee:ff", "aabbccddeeff", "0xaabbccddeeff", " 0XAABBCCDDEEFF"] {
        assert_eq!(parse_mac(text), Ok(0xaabb_ccdd_eeff), "{text}");
    }
    assert_eq!(parse_mac("00:00"), Ok(0x8888_8888_8888));
    assert_eq!(
        parse_mac("aabbccddeeff0"),
        Err("MAC 无效：aabbccddeeff0".to_string())
    );
    assert_eq!(
        parse_servers("10.0.0.1 , 10.0.0.2"),
        Ok(vec![Ipv4Addr::new(10, 0, 0, 1), Ipv4Addr::new(10, 0, 0, 2)])
    );
    assert_eq!(parse_servers(""), Err("服务器地址无效：".to_string()));
}

#[test]
fn help_and_the_configuration_file_are_found_among_the_arguments() {
    assert!(wants_help(&words("--user u --help")));
    assert!(wants_help(&words("-h")));
    assert!(!wants_help(&words("--user u")));
    assert_eq!(
        config_path(&words("--user u --config a.ini --config b.ini")).as_deref(),
        Some("a.ini")
    );
    assert_eq!(config_path(&words("--user u --config")), None);
    assert_eq!(config_path(&words("--user u")), None);
    assert_eq!(missing_config("a"), "--config 指定的文件不存在：a");
    assert_eq!(loaded_config("a"), "已读取配置 a");
}

#[test]
fn a_run_is_announced_without_the_password() {
    let args = read("--user someone --pass hunter2 --server 10.0.0.1,10.0.0.2").unwrap();
    let found = adapter();
    let prepared = prepare(&args, Some(&found));
    assert_eq!(
        prepared.lines,
        vec![
            "网卡 以太网 (Realtek)  IPv4 10.100.61.20  MAC 001122334455  IF 7",
            "准备认证：服务器 10.0.0.1,10.0.0.2 端口 61440，本机 10.100.61.20，账号 someone",
        ]
    );
    assert_eq!(
        prepared.record,
        "cli 启动：服务器 10.0.0.1,10.0.0.2 端口 61440，本机 10.100.61.20，网卡 以太网"
    );
    assert_eq!(prepared.config.password, b"hunter2");
    assert_eq!(prepared.config.local_ipv4, Ipv4Addr::new(10, 100, 61, 20));
    assert_eq!(prepared.warning, None);
}

#[test]
fn a_run_without_an_adapter_says_so() {
    let args = read("--user u --pass p --once --auth-route").unwrap();
    let prepared = prepare(&args, None);
    assert_eq!(
        prepared.lines.last().unwrap(),
        "提示：未检测到网卡 IPv4，套接字将绑定 0.0.0.0，建议用 --local-ip 指定"
    );
    assert!(prepared.record.ends_with("，网卡 未检测到"));
    assert_eq!(
        prepared.warning,
        Some("提示：--auth-route / --auth-route-apply 只作用于完整会话，--once 已忽略它们")
    );
}

#[test]
fn a_reporter_tells_changes_and_keeps_a_trail() {
    let cycle = SessionEvent::KeepAliveCycle {
        sequence: 3,
        tail: [0xde, 0xad, 0xbe, 0xef],
    };
    let mut reporter = Reporter::new(false);
    let online = SessionEvent::Phase(SessionPhase::Online);
    let line = reporter.handle(online.clone(), "  1.5");
    assert_eq!(line.printed.as_deref(), Some("[  1.5s] 认证成功，已上线"));
    assert_eq!(
        line.recorded.as_deref(),
        Some("cli [  1.5s] 认证成功，已上线")
    );
    let line = reporter.handle(online, "  1.6");
    assert_eq!((line.printed, line.recorded), (None, None));
    let line = reporter.handle(cycle.clone(), "  2.0");
    assert_eq!(
        line.printed.as_deref(),
        Some("[  2.0s] 保活完成，序号 3，尾码 deadbeef")
    );
    let mut quiet = Reporter::new(true);
    let line = quiet.handle(SessionEvent::Note("x".to_string()), "  0.0");
    assert_eq!((line.printed, line.recorded), (None, None));
    let line = quiet.handle(cycle, "  2.0");
    assert_eq!(line.printed, None);
    assert!(line.recorded.is_some());
}

#[test]
fn phases_and_durations_have_words() {
    assert_eq!(phase_text(SessionPhase::Challenge), "请求挑战");
    assert_eq!(phase_text(SessionPhase::Authenticating), "发送登录报文");
    assert_eq!(phase_text(SessionPhase::Online), "认证成功，已上线");
    assert_eq!(phase_text(SessionPhase::KeepAlive), "保活中");
    assert_eq!(phase_text(SessionPhase::LoggedOut), "已下线");
    assert_eq!(format_duration(Some(61_999)), "61 秒");
    assert_eq!(format_duration(None), "0 秒");
    assert_eq!(closing_line(Some(5000)), "已下线，本次在线 5 秒");
    assert_eq!(timer_line(60), "已达 --duration 60 秒，正在下线");
}

#[test]
fn a_stop_is_no_failure() {
    let done = finish(&Ok(()), &[]);
    assert!(done.success && done.printed.is_none() && done.complaint.is_none());
    assert_eq!(done.record, "cli 结束：正常");
    let stopped = finish(&Err(SessionError::Stopped), &[]);
    assert!(stopped.success);
    assert_eq!(stopped.printed.as_deref(), Some("已按要求停止"));
    let failed = finish(&Err(SessionError::NoResponse("挑战")), &[]);
    assert!(!failed.success);
    assert_eq!(
        failed.complaint.as_deref(),
        Some("认证结束：认证服务器未响应：挑战")
    );
    assert_eq!(failed.record, "cli 失败：认证服务器未响应：挑战");
}

#[test]
fn flags_win_wherever_they_stand() {
    let line = "--server 10.0.0.1 --user alice --once --pass one --server 10.0.0.2,10.0.0.3 \
        --pass two --port 1 --quiet --port 2 --dns 1.1.1.1 --mac 02:00:00:00:00:01 \
        --hostname desk --local-ip 10.0.0.9 --dhcp 2.2.2.2 --local-port 3 --duration 4";
    let file = "auth_server = 10.9.9.9\naccount = bob\npassword = other\nport = 9\n\
        dns = 9.9.9.9\nmac = 09\nhostname = other\nlocal_ip = 9.9.9.9\ndhcp = 9.9.9.9\n\
        local_port = 9\n";
    let environment = Environment {
        servers: Some("10.8.8.8"),
        password: Some("third"),
        computer_name: Some("third"),
    };
    let plain = read(line).unwrap();
    assert_eq!(
        plain.servers,
        vec![
            Ipv4Addr::new(10, 0, 0, 1),
            Ipv4Addr::new(10, 0, 0, 2),
            Ipv4Addr::new(10, 0, 0, 3),
        ]
    );
    assert_eq!(plain.user, "alice");
    assert_eq!(plain.pass, "two");
    assert_eq!((plain.port, plain.local_port, plain.duration), (2, 3, 4));
    let seeded = parse_args(&words(line), parse(file).unwrap(), &environment).unwrap();
    assert_eq!(seeded, plain);
    assert_eq!(
        parse_args(&words("--port x"), parse(file).unwrap(), &environment),
        read("--port x")
    );
}
