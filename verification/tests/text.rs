use solana_gun_quic_client::text::{decimal, first_chars, hex, starts_with, trim};

#[test]
fn trim_agrees_with_std_on_every_character() {
    for c in '\0'..=char::MAX {
        let s = format!("{c}x{c}");
        assert_eq!(trim(&s), s.trim(), "{c:?}");
    }
    assert_eq!(trim(" \t "), "");
    assert_eq!(trim(""), "");
    assert_eq!(trim("\u{3000}\t a b \u{85}\u{2003}\r\n"), "a b");
    // A zero-width space is no white space.
    assert_eq!(trim("\u{200b}x"), "\u{200b}x");
}

#[test]
fn numbers_are_written_as_std_writes_them() {
    for n in [0u64, 1, 9, 10, 15, 16, 99, 100, 255, 256, 1232, 65535, u64::MAX] {
        assert_eq!(decimal(n), format!("{n}"));
        assert_eq!(hex(n), format!("{n:x}"));
    }
}

#[test]
fn prefixes_and_first_characters() {
    assert!(starts_with("https://x", "https://"));
    assert!(starts_with("https://", "https://"));
    assert!(starts_with("x", ""));
    assert!(!starts_with("https:/", "https://"));
    assert!(!starts_with("http://x", "https://"));
    assert!(!starts_with("HTTPS://x", "https://"));
    assert_eq!(first_chars("\u{e9}\u{e8}a", 2), "\u{e9}\u{e8}");
    assert_eq!(first_chars("ab", 2), "ab");
    assert_eq!(first_chars("ab", 0), "");
}
