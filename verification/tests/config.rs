use drcom_campus::config::{
    discover, load, parse, parse_mac, parse_port, parse_route_mode, parse_servers, ClientConfig,
    LoadError, Place,
};
use drcom_campus::net::Ipv4Addr;
use drcom_campus::reference_login::{ACCOUNT_FIELD_LEN, MAX_PASSWORD_LEN};
use drcom_campus::route::RouteMode;

fn chars(text: &str) -> Vec<char> {
    text.chars().collect()
}

#[test]
fn reads_the_keys_the_original_client_uses() {
    let config = parse(
        "; 认证服务器，对应原版配置里的 auth_server\n\
         [drcom]\n\
         auth_server = 10.100.61.3, 10.100.61.4\n\
         svr_port=61440\n\
         account = 20230001\n\
         password = p@ss;word\n\
         auth_route = dry-run\n",
    )
    .expect("valid");
    assert_eq!(
        config.servers,
        vec![Ipv4Addr::new(10, 100, 61, 3), Ipv4Addr::new(10, 100, 61, 4)]
    );
    assert_eq!(config.server_port, Some(61440));
    assert_eq!(config.account, "20230001");
    assert_eq!(config.password, "p@ss;word");
    assert_eq!(config.auth_route, Some(RouteMode::DryRun));
}

#[test]
fn servers_accept_whitespace_and_repeats() {
    let config = parse("auth_server=10.0.0.1\n_auth_server_is_unknown=1").expect_err("unknown key");
    assert_eq!(config.line, 2);

    let config = parse("auth_server=10.0.0.1 10.0.0.2\n").expect("valid");
    assert_eq!(config.servers.len(), 2);

    let config = parse("auth_server=10.0.0.1\nauth_server=10.0.0.2\n").expect("valid");
    assert_eq!(config.servers.len(), 2);
}

#[test]
fn comment_and_blank_lines_are_skipped() {
    let config = parse("\n; a\n# b\n   \naccount=u\n").expect("valid");
    assert_eq!(config.account, "u");
    assert_eq!(config.servers.len(), 0);
}

#[test]
fn bad_values_report_their_line() {
    let error = parse("account=u\nsvr_port=70000\n").expect_err("port out of range");
    assert_eq!(error.line, 2);

    let error = parse("auth_server=10.0.0.1,999.1.1.1\n").expect_err("bad address");
    assert_eq!(error.line, 1);

    let error = parse("no_equals_here\n").expect_err("missing =");
    assert_eq!(error.line, 1);

    let error = parse("auth_route=maybe\n").expect_err("bad mode");
    assert_eq!(error.line, 1);
}

#[test]
fn zero_is_allowed_for_the_local_port_only() {
    let config = parse("local_port=0\n").expect("valid");
    assert_eq!(config.local_port, Some(0));
    assert!(
        parse("svr_port=0\n").is_err(),
        "the server port cannot be 0"
    );
}

#[test]
fn validation_names_the_missing_field() {
    let config = parse("auth_server=10.0.0.1\n").expect("valid");
    let error = config.validate().expect_err("no account");
    assert!(error.message.contains("account"), "{}", error.to_text());

    let config = parse("auth_server=10.0.0.1\naccount=u\npassword=p\n").expect("valid");
    config.validate().expect("complete");
}

#[test]
fn validation_rejects_fields_the_frame_cannot_hold() {
    let long_account = "a".repeat(ACCOUNT_FIELD_LEN + 1);
    let config = parse(&format!(
        "account={long_account}\npassword=p\nauth_server=10.0.0.1\n"
    ))
    .expect("syntax is fine");
    assert!(config
        .validate()
        .expect_err("too long")
        .message
        .contains("account"));

    let long_password = "p".repeat(MAX_PASSWORD_LEN + 1);
    let config = parse(&format!(
        "account=u\npassword={long_password}\nauth_server=10.0.0.1\n"
    ))
    .expect("syntax is fine");
    assert!(config
        .validate()
        .expect_err("too long")
        .message
        .contains("password"));
}

#[test]
fn file_servers_win_over_the_environment() {
    let config = parse("auth_server=10.0.0.9\n").expect("valid");
    assert_eq!(
        config.servers_or_env(Some("10.0.0.1")),
        vec![Ipv4Addr::new(10, 0, 0, 9)]
    );
    assert_eq!(
        config.servers_or_env(None),
        vec![Ipv4Addr::new(10, 0, 0, 9)]
    );
}

#[test]
fn the_environment_wins_over_the_built_in_server() {
    let config = ClientConfig::default();
    assert_eq!(
        config.servers_or_env(Some("10.0.0.1,10.0.0.2")),
        vec![Ipv4Addr::new(10, 0, 0, 1), Ipv4Addr::new(10, 0, 0, 2)]
    );
    let built_in = vec![Ipv4Addr::new(10, 100, 61, 3)];
    assert_eq!(config.servers_or_env(Some("nonsense")), built_in);
    assert_eq!(config.servers_or_env(Some("")), built_in);
    assert_eq!(config.servers_or_env(None), built_in);
}

#[test]
fn every_key_sets_its_field() {
    let config = parse(
        "account=u\npassword=p\nlocal_ip=10.0.0.5\nmac=aa:bb:cc:dd:ee:ff\nhostname=PC\n\
         dns=1.1.1.1\ndhcp=10.0.0.254\nsvr_port=6000\nlocal_port=6001\nauth_route=manage\n",
    )
    .expect("valid");
    assert_eq!(config.local_ip, Some(Ipv4Addr::new(10, 0, 0, 5)));
    assert_eq!(config.mac, Some(0xaabb_ccdd_eeff));
    assert_eq!(config.hostname.as_deref(), Some("PC"));
    assert_eq!(config.dns, Some(Ipv4Addr::new(1, 1, 1, 1)));
    assert_eq!(config.dhcp, Some(Ipv4Addr::new(10, 0, 0, 254)));
    assert_eq!(config.server_port, Some(6000));
    assert_eq!(config.local_port, Some(6001));
    assert_eq!(config.auth_route, Some(RouteMode::Manage));
}

#[test]
fn the_first_bad_line_is_the_one_reported() {
    let error = parse("account=u\nbad\nworse\n").expect_err("two bad lines");
    assert_eq!(error.line, 2);
    assert!(error.to_text().starts_with("第 2 行："));
    assert!(LoadError::Invalid(error).to_text().contains("第 2 行"));
}

#[test]
fn values_are_read_or_refused() {
    assert_eq!(parse_mac(&chars("0xaabbccddeeff")), Ok(0xaabb_ccdd_eeff));
    assert!(parse_mac(&chars("--")).is_err());
    assert!(parse_mac(&chars("aabbccddeeff0")).is_err());
    assert_eq!(parse_port(&chars(" 61440 "), "svr_port", false), Ok(61440));
    assert!(parse_port(&chars("65536"), "svr_port", false).is_err());
    assert!(parse_port(&chars("-1"), "svr_port", false).is_err());
    assert_eq!(parse_route_mode(&chars("off")), Ok(RouteMode::Off));
    assert_eq!(
        parse_servers(&chars("10.0.0.1, 10.0.0.2")),
        Ok(vec![Ipv4Addr::new(10, 0, 0, 1), Ipv4Addr::new(10, 0, 0, 2)])
    );
    assert!(parse_servers(&chars("10.0.0.256")).is_err());
}

#[test]
fn the_search_stops_at_the_first_file() {
    assert_eq!(discover(true, true, true), Some(Place::Program));
    assert_eq!(discover(true, false, false), Some(Place::Program));
    assert_eq!(discover(false, true, true), Some(Place::WorkingDirectory));
    assert_eq!(discover(false, false, true), Some(Place::UserData));
    assert_eq!(discover(false, false, false), None);
}

#[test]
fn a_file_is_read_then_parsed() {
    let config = load(Ok("account = someone\n".to_string())).unwrap();
    assert_eq!(config.account, "someone");
    assert_eq!(
        load(Err("denied".to_string())),
        Err(LoadError::Io("denied".to_string()))
    );
    match load(Ok("\nnonsense\n".to_string())) {
        Err(LoadError::Invalid(error)) => assert_eq!(error.line, 2),
        other => panic!("{other:?}"),
    }
}

#[test]
fn a_text_can_be_read_in_parts() {
    let first = "server = 10.0.0.1\naccount = alice\npassword = one\ndns = 1.1.1.1\n";
    let second = "server = 10.0.0.2\npassword =\ndns = 2.2.2.2";
    let whole = parse(&format!("{first}{second}")).unwrap();
    assert_eq!(
        whole.servers,
        vec![Ipv4Addr::new(10, 0, 0, 1), Ipv4Addr::new(10, 0, 0, 2)]
    );
    assert_eq!(whole.account, "alice");
    assert_eq!(whole.password, "");
    assert_eq!(whole.dns, Some(Ipv4Addr::new(2, 2, 2, 2)));

    let bad = "mac = 01\nnonsense\n";
    assert_eq!(parse(bad).unwrap_err().line, 2);
    let late = parse(&format!("{first}{bad}")).unwrap_err();
    assert_eq!(late.line, 6);
    assert_eq!(late.message, parse(bad).unwrap_err().message);
    assert_eq!(
        parse(&format!("{bad}{first}")).unwrap_err(),
        parse(bad).unwrap_err()
    );
}
