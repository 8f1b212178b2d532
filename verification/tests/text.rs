use openutm::text::{
    char_ascii_lower, char_is_whitespace, decimal_string, first_line_of, join, lowercase_is,
    text_eq, text_has_char, text_is_blank, trim,
};
use openutm::Error;

#[test]
fn numerals_are_what_the_standard_library_writes() {
    for n in [0u64, 1, 9, 10, 11, 99, 100, 4096, 5900, 6899, 4294967295, u64::MAX] {
        assert_eq!(decimal_string(n), n.to_string());
    }
}

#[test]
fn blank_is_what_trims_to_nothing() {
    for text in ["", " ", "\t\n\r", "\u{b}\u{c}", "\u{85}\u{a0}\u{1680}", "\u{2000}\u{200a}",
        "\u{2028}\u{2029}\u{202f}\u{205f}\u{3000}", "a", " a ", "\u{200b}", "\u{180e}", "\u{feff}",
        "\u{1c}", "_"]
    {
        assert_eq!(text_is_blank(text), text.trim().is_empty(), "{:?}", text);
        assert_eq!(trim(text), text.trim(), "{:?}", text);
    }
    for code in 0u32..0x3100 {
        if let Some(c) = char::from_u32(code) {
            assert_eq!(char_is_whitespace(c), c.is_whitespace(), "{:x}", code);
            assert_eq!(char_ascii_lower(c), c.to_ascii_lowercase(), "{:x}", code);
        }
    }
}

#[test]
fn trimming_keeps_the_inside() {
    assert_eq!(trim("  a  b \n"), "a  b");
    assert_eq!(trim("x"), "x");
    assert_eq!(trim("\u{3000}é\u{a0}"), "é");
}

#[test]
fn first_line_ends_at_the_first_line_feed() {
    assert_eq!(first_line_of("one\ntwo\n"), "one");
    assert_eq!(first_line_of("one"), "one");
    assert_eq!(first_line_of("\ntwo"), "");
    assert_eq!(first_line_of(""), "");
    assert_eq!(first_line_of("é\r\nx"), "é\r");
}

#[test]
fn texts_are_compared_and_searched_by_character() {
    assert!(text_eq("", ""));
    assert!(text_eq("héllo", "héllo"));
    assert!(!text_eq("hello", "hellp"));
    assert!(!text_eq("hello", "hell"));
    assert!(lowercase_is("RuNnInG", "running"));
    assert!(!lowercase_is("running", "Running"));
    assert!(!lowercase_is("É", "é"));
    assert!(text_has_char("kern.hv_support: 1", '1'));
    assert!(!text_has_char("kern.hv_support: 0", '1'));
    assert!(!text_has_char("", '1'));
}

#[test]
fn joining_puts_the_separator_between() {
    let parts: Vec<String> = vec!["a".to_string(), "".to_string(), "c".to_string()];
    assert_eq!(join(&parts, ", "), "a, , c");
    assert_eq!(join(&parts[..1].to_vec(), ", "), "a");
    assert_eq!(join(&Vec::new(), ", "), "");
}

#[test]
fn errors_say_what_they_are() {
    let text = |e: Error| e.message();
    assert_eq!(text(Error::QemuNotFound), "QEMU not found");
    assert_eq!(text(Error::QemuError("a".to_string())), "QEMU error: a");
    assert_eq!(text(Error::VMError("VM not running".to_string())), "VM error: VM not running");
    assert_eq!(text(Error::PlatformError("a".to_string())), "Platform error: a");
    assert_eq!(text(Error::DatabaseError("a".to_string())), "Database error: a");
    assert_eq!(text(Error::IoError("a".to_string())), "IO error: a");
    assert_eq!(text(Error::JsonError("a".to_string())), "JSON error: a");
    assert_eq!(text(Error::ConfigError("a".to_string())), "Configuration error: a");
    assert_eq!(text(Error::InvalidConfig("a".to_string())), "Invalid VM configuration: a");
    assert_eq!(text(Error::ProtocolError("a".to_string())), "Protocol error: a");
    assert_eq!(text(Error::ConnectionLost), "Connection lost");
    assert_eq!(text(Error::Timeout("a".to_string())), "Timed out: a");
    assert_eq!(text(Error::Timeout("a".to_string()).clone()), "Timed out: a");
}
