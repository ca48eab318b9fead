use novamind::text::{decimal_text, signed_decimal_text, trim};

#[test]
fn trim_drops_what_std_calls_white_space() {
    for code in 0..=0x10ffffu32 {
        if let Some(c) = char::from_u32(code) {
            let text = format!("{}x{}", c, c);
            assert_eq!(trim(&text), text.trim(), "U+{:04X}", code);
        }
    }
}

#[test]
fn trim_keeps_white_space_inside() {
    assert_eq!(trim("\n Hello\tworld\t\n"), "Hello\tworld");
    assert_eq!(trim("\u{3000}a \u{a0} b\u{2029}"), "a \u{a0} b");
    assert_eq!(trim("abc"), "abc");
}

#[test]
fn trim_of_white_space_is_empty() {
    assert_eq!(trim(""), "");
    assert_eq!(trim(" \t\r\n"), "");
}

#[test]
fn trimming_twice_is_trimming_once() {
    for text in ["  a b ", "", "\t", "x", " \u{e9}\u{85}"] {
        assert_eq!(trim(trim(text)), trim(text));
    }
}

#[test]
fn decimal_text_is_what_std_prints() {
    for n in [0, 1, 9, 10, 11, 99, 100, 101, 4096, 1_234_567_890, u64::MAX - 1, u64::MAX] {
        assert_eq!(decimal_text(n), n.to_string());
    }
}

#[test]
fn signed_decimal_text_is_what_std_prints() {
    for i in [0, 1, -1, 10, -10, -99, 1_700_000_000, i64::MAX, i64::MIN, i64::MIN + 1] {
        assert_eq!(signed_decimal_text(i), i.to_string());
    }
}
