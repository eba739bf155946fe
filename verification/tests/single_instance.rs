use drcom_campus::single_instance::{activation_name, claim, Conduct, Launch, ALREADY_EXISTS, APP_NAME};

#[test]
fn the_first_copy_carries_on_and_a_later_one_leaves() {
    assert_eq!(claim(Some(0)), Launch::Primary);
    assert_eq!(claim(Some(5)), Launch::Primary);
    assert_eq!(claim(Some(ALREADY_EXISTS)), Launch::Duplicate);
    assert_eq!(claim(Some(183)), Launch::Duplicate);
}

#[test]
fn without_the_event_there_is_no_guard() {
    assert_eq!(claim(None), Launch::Unguarded);
}

#[test]
fn the_event_is_named_after_the_mutex() {
    assert!(APP_NAME.starts_with("Local\\"));
    assert_eq!(
        activation_name(APP_NAME),
        "Local\\DrComCampus-Rust-SingleInstance-Activate"
    );
}

#[test]
fn a_duplicate_signals_what_the_first_copy_waits_for() {
    let first = Launch::Primary.conduct("Local\\Test");
    assert_eq!(
        first,
        Conduct {
            signal: None,
            listen: Some("Local\\Test-Activate".to_string()),
            carries_on: true,
        }
    );
    let second = Launch::Duplicate.conduct("Local\\Test");
    assert_eq!(second.signal, first.listen);
    assert_eq!(second.listen, None);
    assert!(!second.carries_on);
    assert_eq!(
        Launch::Unguarded.conduct("Local\\Test"),
        Conduct {
            signal: None,
            listen: None,
            carries_on: true,
        }
    );
}
