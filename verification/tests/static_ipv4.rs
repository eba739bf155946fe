use drcom_campus::static_ipv4::{apply_result, command_for, le_bytes, Configuration};

fn accepted() -> Configuration {
    Configuration::parse("10.0.0.8", "255.255.255.0", "10.0.0.1", "1.1.1.1").unwrap()
}

#[test]
fn rejects_invalid_subnets_and_command_text() {
    assert!(Configuration::parse("10.0.0.8", "255.255.255.0", "10.0.0.1", "1.1.1.1").is_ok());
    assert!(
        Configuration::parse("10.0.0.8; exit", "255.255.255.0", "10.0.0.1", "1.1.1.1").is_err()
    );
    assert!(Configuration::parse("10.0.0.8", "255.0.255.0", "10.0.0.1", "1.1.1.1").is_err());
    assert!(Configuration::parse("10.0.0.8", "255.255.255.0", "10.1.0.1", "1.1.1.1").is_err());
    assert!(Configuration::parse("10.0.0.255", "255.255.255.0", "10.0.0.1", "1.1.1.1").is_err());
}

#[test]
fn adapter_names_cannot_inject_powershell() {
    let config =
        Configuration::parse("10.0.0.8", "255.255.255.0", "10.0.0.1", "1.1.1.1").unwrap();
    let script = config.script("Ethernet'; exit 99; #");
    assert!(!script.contains("exit 99"));
    assert!(script.contains("static 10.0.0.8 255.255.255.0 10.0.0.1"));
}

#[test]
fn each_refusal_names_its_reason() {
    let refusal = |ip: &str, mask: &str, gateway: &str, dns: &str| {
        Configuration::parse(ip, mask, gateway, dns).unwrap_err()
    };
    assert_eq!(refusal("x", "x", "x", "x"), "IPv4 地址 格式不正确");
    assert_eq!(refusal("10.0.0.8", "x", "x", "x"), "子网掩码 格式不正确");
    assert_eq!(
        refusal("10.0.0.8", "255.255.255.0", "x", "x"),
        "网关 格式不正确"
    );
    assert_eq!(
        refusal("10.0.0.8", "255.255.255.0", "10.0.0.1", "x"),
        "DNS 格式不正确"
    );
    for mask in ["255.0.255.0", "0.0.0.0", "255.255.255.254", "255.255.255.255"] {
        assert_eq!(
            refusal("10.0.0.8", mask, "10.0.0.1", "1.1.1.1"),
            "子网掩码必须连续，支持 /1 到 /30"
        );
    }
    for address in ["127.0.0.8", "0.0.0.8", "224.0.0.8"] {
        assert_eq!(
            refusal(address, "255.255.255.0", "10.0.0.1", "1.1.1.1"),
            "地址、网关和 DNS 必须是有效单播 IPv4 地址"
        );
    }
    assert_eq!(
        refusal("10.0.0.0", "255.255.255.0", "10.0.0.1", "1.1.1.1"),
        "地址和网关不能使用子网的网络地址或广播地址"
    );
    assert_eq!(
        refusal("10.0.0.1", "255.255.255.0", "10.0.0.1", "1.1.1.1"),
        "网关必须与地址处于同一子网，且不能相同"
    );
}

#[test]
fn blanks_around_a_field_are_ignored() {
    assert_eq!(
        Configuration::parse(" 10.0.0.8 ", "255.255.255.0\t", " 10.0.0.1", "1.1.1.1 "),
        Ok(accepted())
    );
    assert!(Configuration::parse("10.0.0.5", "255.255.255.252", "10.0.0.6", "1.1.1.1").is_ok());
    assert!(Configuration::parse("1.0.0.5", "128.0.0.0", "126.0.0.6", "1.1.1.1").is_ok());
}

#[test]
fn the_script_is_exact() {
    assert_eq!(
        accepted().script("以太网"),
        "$ErrorActionPreference = 'Stop'\n\
         $adapter = [Text.Encoding]::UTF8.GetString([Convert]::FromBase64String('5Lul5aSq572R'))\n\
         & \"$env:SystemRoot\\System32\\netsh.exe\" interface ipv4 set address \"name=$adapter\" static 10.0.0.8 255.255.255.0 10.0.0.1 1\n\
         if ($LASTEXITCODE -ne 0) { exit 10 }\n\
         & \"$env:SystemRoot\\System32\\netsh.exe\" interface ipv4 set dnsservers \"name=$adapter\" static 1.1.1.1 primary validate=no\n\
         if ($LASTEXITCODE -ne 0) { exit 11 }\n\
         exit 0"
    );
    assert_eq!(accepted().script("以太网"), accepted().script_for("5Lul5aSq572R"));
}

#[test]
fn an_encoded_name_is_padded() {
    assert!(accepted().script("E").contains("FromBase64String('RQ==')"));
    assert!(accepted().script("").contains("FromBase64String('')"));
    for (name, encoded) in [
        ("f", "Zg=="),
        ("fo", "Zm8="),
        ("foo", "Zm9v"),
        ("foob", "Zm9vYg=="),
        ("fooba", "Zm9vYmE="),
        ("foobar", "Zm9vYmFy"),
        ("???>>>", "Pz8/Pj4+"),
    ] {
        assert_eq!(accepted().script(name), accepted().script_for(encoded));
    }
}

#[test]
fn the_command_carries_the_script_as_utf16() {
    let command = accepted().command("Ethernet");
    let head = "try { $p = Start-Process -FilePath \"$env:SystemRoot\\System32\\WindowsPowerShell\\v1.0\\powershell.exe\" -Verb RunAs -WindowStyle Hidden -ArgumentList '-NoProfile -NonInteractive -WindowStyle Hidden -EncodedCommand ";
    let tail = "' -Wait -PassThru; exit $p.ExitCode } catch { exit 12 }";
    assert!(command.starts_with(head));
    assert!(command.ends_with(tail));
    let encoded = &command[head.len()..command.len() - tail.len()];
    // `$E` in UTF-16, least significant byte first.
    assert!(encoded.starts_with("JABF"));
    assert!(!encoded.contains('\''));
    assert_eq!(command_for(encoded), command);
    let units: Vec<u16> = accepted().script("Ethernet").encode_utf16().collect();
    let bytes: Vec<u8> = units.iter().flat_map(|unit| unit.to_le_bytes()).collect();
    assert_eq!(le_bytes(&units), bytes);
    assert_eq!(encoded.len(), bytes.len().div_ceil(3) * 4);
}

#[test]
fn exit_codes_are_explained() {
    assert_eq!(apply_result(Some(0)), Ok(()));
    assert_eq!(
        apply_result(Some(10)),
        Err("IPv4 地址设置失败，请检查地址和网卡状态".to_string())
    );
    assert_eq!(
        apply_result(Some(11)),
        Err("IPv4 地址已修改，但 DNS 设置失败；请重试或打开 Windows 网络设置检查".to_string())
    );
    for code in [Some(12), Some(1), None] {
        assert_eq!(
            apply_result(code),
            Err("网络设置未完成，管理员授权可能已取消".to_string())
        );
    }
}
