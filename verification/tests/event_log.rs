use drcom_campus::event_log::{
    append, compact_timestamp, record, rotate_if_large, rotated_path, single_line, tail,
    timestamp, LocalTime, MAX_BYTES, ROTATED_SUFFIX,
};

const NOW: LocalTime = LocalTime {
    year: 2026,
    month: 9,
    day: 5,
    hour: 8,
    minute: 3,
    second: 7,
};

#[test]
fn lines_carry_a_timestamp_and_survive_multiline_input() {
    let mut text = String::new();
    for message in ["认证成功\n保活中", "已下线"] {
        let step = append(Some(text.len() as u64), NOW, message);
        assert!(!step.rotate);
        text.push_str(&step.line);
    }
    let lines: Vec<&str> = text.lines().collect();
    assert_eq!(lines.len(), 2, "one call must produce exactly one line");
    for line in &lines {
        assert!(
            line.starts_with('[') && line.contains("] "),
            "missing timestamp: {line}"
        );
    }
    assert!(lines[0].ends_with("认证成功 保活中"));
    assert!(lines[1].ends_with("已下线"));
    assert_eq!(lines[1], "[2026-09-05 08:03:07] 已下线");
}

#[test]
fn a_full_log_rotates_to_one_previous_generation() {
    let rotated = rotated_path("rotate.log");
    assert_eq!(rotated, format!("rotate.log.{ROTATED_SUFFIX}"));
    assert_eq!(rotated, "rotate.log.1");
    let step = append(Some(MAX_BYTES + 1), NOW, "轮转之后");
    assert!(step.rotate, "the oversized log was not rotated");
    let current = step.line;
    assert!(
        current.trim_end().ends_with("轮转之后"),
        "the fresh log should hold the new line, got {current:?}"
    );
    assert!(
        current.len() < 128,
        "the current log should start over, got {} bytes",
        current.len()
    );
}

#[test]
fn only_a_log_past_the_limit_rotates() {
    assert!(!rotate_if_large(MAX_BYTES));
    assert!(rotate_if_large(MAX_BYTES + 1));
    assert!(!append(None, NOW, "x").rotate);
}

#[test]
fn tail_is_empty_rather_than_an_error_when_there_is_no_log() {
    assert_eq!(tail(None, 5), "");
}

#[test]
fn the_tail_is_the_last_messages_in_order() {
    let mut text = String::new();
    for message in ["one", "two\r\nlines", "three"] {
        text.push_str(&record(NOW, message));
    }
    assert_eq!(
        tail(Some(&text), 2),
        "[2026-09-05 08:03:07] two  lines\n[2026-09-05 08:03:07] three"
    );
    assert_eq!(tail(Some(&text), 9), text.trim_end());
    assert_eq!(tail(Some(&text), 0), "");
    assert_eq!(tail(Some(""), 3), "");
}

#[test]
fn moments_are_written_with_leading_zeros() {
    assert_eq!(timestamp(NOW), "2026-09-05 08:03:07");
    assert_eq!(compact_timestamp(NOW), "20260905-080307");
    assert_eq!(single_line("a\r\nb"), "a  b");
}
