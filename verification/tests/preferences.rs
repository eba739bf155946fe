use drcom_campus::preferences::{
    autostart_changed, autostart_command, autostart_enabled, load, wide, Preferences, Stored,
};

#[test]
fn the_defaults_reconnect_and_close_to_the_tray() {
    let defaults = Preferences::default();
    assert_eq!(defaults.username, "");
    assert_eq!(defaults.password, "");
    assert!(!defaults.auto_login);
    assert!(defaults.auto_reconnect);
    assert!(defaults.minimize_to_tray);
}

#[test]
fn only_this_program_counts_as_registered() {
    let program = "C:\\Drcom\\drcom-campus.exe";
    assert_eq!(
        autostart_command(program),
        "\"C:\\Drcom\\drcom-campus.exe\""
    );
    assert_eq!(
        autostart_enabled(0, "\"c:\\DRCOM\\drcom-campus.EXE\"", program),
        Ok(true)
    );
    assert_eq!(autostart_enabled(0, "\"c:\\other.exe\"", program), Ok(false));
    assert_eq!(autostart_enabled(2, "", program), Ok(false));
    assert_eq!(autostart_enabled(5, "", program), Err(5));
}

#[test]
fn removing_a_missing_registration_succeeds() {
    assert_eq!(autostart_changed(true, 0), Ok(()));
    assert_eq!(autostart_changed(false, 2), Ok(()));
    assert_eq!(autostart_changed(true, 2), Err(2));
    assert_eq!(autostart_changed(false, 5), Err(5));
}

#[test]
fn wide_text_ends_with_a_zero() {
    assert_eq!(wide("a网"), vec![0x61, 0x7f51, 0]);
}

#[test]
fn only_a_missing_file_means_the_defaults() {
    assert_eq!(load(Stored::Missing), Ok(Preferences::default()));
    let kept = Preferences {
        username: "test-user".into(),
        password: "test-secret".into(),
        auto_login: true,
        auto_reconnect: false,
        minimize_to_tray: false,
    };
    assert_eq!(load(Stored::Opened(kept.clone())), Ok(kept));
    assert_eq!(
        load(Stored::Failed("denied".into())),
        Err("denied".to_string())
    );
}
