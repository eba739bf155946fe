use drcom_campus::text::{
    contains, decimal_text, hex_byte_upper_text, hex_text, hexadecimal_text, is_white_space, join,
    lower_ascii, padded_decimal, padded_hexadecimal, parse_unsigned, read_hex, split_lines,
    split_text, strip_leading_pair, trim, trimmed_text, utf16_units, Separator,
};

fn chars(text: &str) -> Vec<char> {
    text.chars().collect()
}

fn strings(parts: Vec<Vec<char>>) -> Vec<String> {
    parts.into_iter().map(|part| part.into_iter().collect()).collect()
}

#[test]
fn white_space_is_what_the_standard_library_says() {
    for code in 0..=0x10ffffu32 {
        if let Some(c) = char::from_u32(code) {
            assert_eq!(is_white_space(c), c.is_whitespace(), "{code:x}");
        }
    }
}

#[test]
fn numbers_are_written_as_the_standard_library_writes_them() {
    for n in [0, 9, 10, 61440, 4294967295, u64::MAX] {
        assert_eq!(decimal_text(n), n.to_string());
        assert_eq!(hexadecimal_text(n), format!("{n:x}"));
        assert_eq!(padded_decimal(n, 4), format!("{n:04}"));
        assert_eq!(padded_hexadecimal(n, 12), format!("{n:012x}"));
    }
    assert_eq!(hex_text(&[0, 0xab, 0xff]), "00abff");
    assert_eq!(hex_byte_upper_text(0xa5), "A5");
}

#[test]
fn numbers_are_read_as_the_standard_library_reads_them() {
    for text in ["", "+", "0", "+7", "007", "65535", "65536", "-1", "1 ", "１"] {
        assert_eq!(
            parse_unsigned(&chars(text), 65535),
            text.parse::<u16>().ok().map(u64::from),
            "{text:?}"
        );
    }
    let max = u64::MAX.to_string();
    assert_eq!(parse_unsigned(&chars(&max), u64::MAX), Some(u64::MAX));
    assert_eq!(
        parse_unsigned(&chars("18446744073709551616"), u64::MAX),
        None
    );
    assert_eq!(read_hex(&chars("fFeE")), 0xffee);
}

#[test]
fn lines_are_split_as_the_standard_library_splits_them() {
    for text in ["", "a", "a\n", "a\r\nb", "\n\n", "a\rb\n", "a\n\r\n", "x\r"] {
        let expected: Vec<String> = text.lines().map(str::to_string).collect();
        assert_eq!(strings(split_lines(&chars(text))), expected, "{text:?}");
    }
}

#[test]
fn parts_are_split_as_the_standard_library_splits_them() {
    for text in ["", ",", "a,b", "a,,b,", " a , b "] {
        let expected: Vec<String> = text.split(',').map(str::to_string).collect();
        assert_eq!(
            strings(split_text(&chars(text), Separator::One(','))),
            expected,
            "{text:?}"
        );
        let expected: Vec<String> = text
            .split(|c: char| c == ',' || c.is_whitespace())
            .map(str::to_string)
            .collect();
        assert_eq!(
            strings(split_text(&chars(text), Separator::CommaOrSpace)),
            expected,
            "{text:?}"
        );
    }
}

#[test]
fn texts_are_trimmed_and_lowered() {
    assert_eq!(trimmed_text("\u{3000} a b\t\n"), "a b");
    assert_eq!(trim(&chars("   ")), &[] as &[char]);
    assert_eq!(lower_ascii(&chars("AbÄ")), chars("abÄ"));
    assert_eq!(
        strip_leading_pair(&chars("0x0x12"), '0', 'x'),
        &chars("12")[..]
    );
}

#[test]
fn parts_are_joined_and_found() {
    assert_eq!(join(&["a".to_string(), "b".to_string()], ", "), "a, b");
    assert_eq!(join(&[], ", "), "");
    assert!(contains(&chars("abcabd"), &chars("abd")));
    assert!(!contains(&chars("ab"), &chars("abc")));
    assert!(contains(&chars("ab"), &chars("")));
}

#[test]
fn utf16_matches_the_standard_library() {
    for text in ["", "netsh", "以太网", "a😀b", "\u{10ffff}\u{e000}\u{d7ff}"] {
        let expected: Vec<u16> = text.encode_utf16().collect();
        assert_eq!(utf16_units(text), expected);
    }
}
