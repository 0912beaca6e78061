use vyasoai_daemon::text::{is_blank, text_le_exec, white_space};

#[test]
fn text_order_is_byte_order() {
    assert!(text_le_exec("a", "b"));
    assert!(!text_le_exec("b", "a"));
    assert!(text_le_exec("a", "ab"));
    assert!(!text_le_exec("ab", "a"));
    assert!(text_le_exec("", ""));
    assert!(text_le_exec("same", "same"));
    assert!(!text_le_exec("\u{e9}", "z"));
    assert!(text_le_exec("2024-03-01T00:00:00Z", "2024-03-02T00:00:00Z"));
}

#[test]
fn blank_means_white_space_only() {
    assert!(is_blank(""));
    assert!(is_blank(" \t\r\n"));
    assert!(is_blank("\u{3000}\u{a0}\u{2028}"));
    assert!(!is_blank(" x "));
    assert!(!is_blank("\u{200b}"));
    for c in ['\u{9}', '\u{d}', ' ', '\u{85}', '\u{1680}', '\u{2000}', '\u{200a}', '\u{202f}', '\u{205f}'] {
        assert_eq!(white_space(c), c.is_whitespace());
    }
    assert_eq!(white_space('a'), 'a'.is_whitespace());
}
