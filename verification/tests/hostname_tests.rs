use hana_ssh::hostname::{hostname_is_valid, letter_or_digit, split_fields};
use hana_ssh::text::{
    char_is_whitespace,
    chars_of,
    concat2,
    concat3,
    decimal_text,
    is_blank,
    str_equal,
};

fn fields(s: &str, sep: char) -> Vec<String> {
    split_fields(&chars_of(s), sep).iter().map(|f| f.iter().collect::<String>()).collect()
}

#[test]
fn split_keeps_empty_fields() {
    assert_eq!(fields("", '.'), vec![""]);
    assert_eq!(fields("a", '.'), vec!["a"]);
    assert_eq!(fields("a.b", '.'), vec!["a", "b"]);
    assert_eq!(fields("a..b", '.'), vec!["a", "", "b"]);
    assert_eq!(fields(".a.", '.'), vec!["", "a", ""]);
    assert_eq!(fields("::", ':'), vec!["", "", ""]);
    assert_eq!(fields("::1", ':'), vec!["", "", "1"]);
}

#[test]
fn domain_names_are_checked_label_by_label() {
    assert!(hostname_is_valid("a"));
    assert!(hostname_is_valid("a-b.c-d.example"));
    assert!(hostname_is_valid("xn--mnchen-3ya.de"));
    assert!(hostname_is_valid("123.example"));
    assert!(!hostname_is_valid("a..b"));
    assert!(!hostname_is_valid("a.b."));
    assert!(!hostname_is_valid(".a.b"));
    assert!(!hostname_is_valid("a_b.example"));
    assert!(!hostname_is_valid("a b"));
    assert!(!hostname_is_valid("a.-b"));
    assert!(!hostname_is_valid("a.b-"));
    assert!(!hostname_is_valid("-"));
    assert!(!hostname_is_valid("exa mple.com"));
    assert!(!hostname_is_valid("example.com:22"));
}

#[test]
fn letters_and_digits_of_any_script_make_a_label() {
    assert!(hostname_is_valid("münchen.de"));
    assert!(hostname_is_valid("例え.jp"));
    assert!(hostname_is_valid("٣.example"));
    assert!(!hostname_is_valid("a\u{200b}b.example"));
    assert!(!hostname_is_valid("a!b.example"));
}

#[test]
fn labels_hold_at_most_63_characters() {
    let label63 = "a".repeat(63);
    let label64 = "a".repeat(64);
    assert!(hostname_is_valid(&label63));
    assert!(!hostname_is_valid(&label64));
    assert!(hostname_is_valid(&format!("{}.com", label63)));
    assert!(!hostname_is_valid(&format!("{}.com", label64)));
}

#[test]
fn names_hold_at_most_253_characters() {
    let label = "a".repeat(63);
    let name253 = format!("{}.{}.{}.{}", label, label, label, "a".repeat(61));
    let name254 = format!("{}.{}.{}.{}", label, label, label, "a".repeat(62));
    assert_eq!(name253.len(), 253);
    assert_eq!(name254.len(), 254);
    assert!(hostname_is_valid(&name253));
    assert!(!hostname_is_valid(&name254));
}

#[test]
fn ipv4_literals() {
    assert!(hostname_is_valid("0.0.0.0"));
    assert!(hostname_is_valid("255.255.255.255"));
    assert!(hostname_is_valid("192.0.2.1"));
    assert!(hostname_is_valid("127.0.0.1"));
}

#[test]
fn ipv6_literals_in_full() {
    assert!(hostname_is_valid("1:2:3:4:5:6:7:8"));
    assert!(hostname_is_valid("2001:0db8:85a3:0000:0000:8a2e:0370:7334"));
    assert!(hostname_is_valid("FE80:0:0:0:0:0:0:1"));
    assert!(hostname_is_valid("1:2:3:4:5:6:192.168.1.1"));
    assert!(!hostname_is_valid("1:2:3:4:5:6:7"));
    assert!(!hostname_is_valid("1:2:3:4:5:6:7:8:9"));
    assert!(!hostname_is_valid("1:2:3:4:5:6:7:192.168.1.1"));
    assert!(!hostname_is_valid("1:2:3:4:5:192.168.1.1"));
    assert!(!hostname_is_valid("1:2:3:4:5:6:7:g"));
    assert!(!hostname_is_valid("1:2:3:4:5:6:7:12345"));
    assert!(!hostname_is_valid("1:2:3:4:5:6:7:"));
    assert!(!hostname_is_valid(":1:2:3:4:5:6:7"));
    assert!(!hostname_is_valid("192.168.1.1:2:3:4:5:6:7"));
}

#[test]
fn ipv6_literals_compressed() {
    assert!(hostname_is_valid("::"));
    assert!(hostname_is_valid("::1"));
    assert!(hostname_is_valid("1::"));
    assert!(hostname_is_valid("fe80::1"));
    assert!(hostname_is_valid("2001:db8::ff00:42:8329"));
    assert!(hostname_is_valid("1:2:3:4:5:6:7::"));
    assert!(hostname_is_valid("::2:3:4:5:6:7:8"));
    assert!(hostname_is_valid("1::3:4:5:6:7:8"));
    assert!(hostname_is_valid("::ffff:192.168.1.1"));
    assert!(hostname_is_valid("::192.168.1.1"));
    assert!(hostname_is_valid("64:ff9b::192.0.2.33"));
    assert!(hostname_is_valid("1:2:3:4:5::192.168.1.1"));

    assert!(!hostname_is_valid(":"));
    assert!(!hostname_is_valid(":::"));
    assert!(!hostname_is_valid("1:::2"));
    assert!(!hostname_is_valid("1::2::3"));
    assert!(!hostname_is_valid("::1::"));
    assert!(!hostname_is_valid("1:2:3:4:5:6:7::8"));
    assert!(!hostname_is_valid("1:2:3:4:5:6:7:8::"));
    assert!(!hostname_is_valid("::1:2:3:4:5:6:7:8"));
    assert!(!hostname_is_valid("1:2:3:4:5:6::192.168.1.1"));
    assert!(!hostname_is_valid("192.168.1.1::"));
    assert!(!hostname_is_valid("::192.168.1.1:1"));
    assert!(!hostname_is_valid("::1.2.3"));
    assert!(!hostname_is_valid("::12345"));
    assert!(!hostname_is_valid("::g"));
    assert!(!hostname_is_valid(":1"));
    assert!(!hostname_is_valid("1:"));
    assert!(!hostname_is_valid("::256.1.1.1"));
    assert!(!hostname_is_valid("::01.1.1.1"));
    assert!(!hostname_is_valid("[::1]"));
    assert!(!hostname_is_valid("fe80::1%eth0"));
}

#[test]
fn whitespace_is_what_unicode_says() {
    for c in [
        ' ', '\t', '\n', '\u{b}', '\u{c}', '\r', '\u{85}', '\u{a0}', '\u{1680}', '\u{2000}',
        '\u{2005}', '\u{200a}', '\u{2028}', '\u{2029}', '\u{202f}', '\u{205f}', '\u{3000}',
    ] {
        assert!(char_is_whitespace(c));
        assert!(c.is_whitespace());
    }
    for c in ['a', '0', '-', '\u{8}', '\u{e}', '\u{1f}', '\u{200b}', '\u{180e}', '\u{feff}', '\u{2060}'] {
        assert!(!char_is_whitespace(c));
        assert!(!c.is_whitespace());
    }
}

#[test]
fn whitespace_agrees_with_the_standard_library_everywhere() {
    let mut code: u32 = 0;
    while code <= 0x10FFFF {
        if let Some(c) = char::from_u32(code) {
            assert_eq!(char_is_whitespace(c), c.is_whitespace());
        }
        code += 1;
    }
}

#[test]
fn blank_means_nothing_is_left_after_trimming() {
    assert!(is_blank(""));
    assert!(is_blank(" "));
    assert!(is_blank(" \t\r\n\u{3000}"));
    assert!(!is_blank("a"));
    assert!(!is_blank("  a  "));
    assert!(!is_blank("\u{200b}"));
    for s in ["", " ", "x", " x", "\u{a0}", "\u{a0}x\u{a0}"] {
        assert_eq!(is_blank(s), s.trim().is_empty());
    }
}

#[test]
fn texts_compare_by_their_characters() {
    assert!(str_equal("", ""));
    assert!(str_equal("abc", "abc"));
    assert!(str_equal("mün", "mün"));
    assert!(!str_equal("abc", "abd"));
    assert!(!str_equal("abc", "ab"));
    assert!(!str_equal("", "a"));
    assert!(!str_equal("é", "e\u{301}"));
}

#[test]
fn texts_are_joined_in_order() {
    assert_eq!(concat2("ab", "cd"), "abcd");
    assert_eq!(concat2("", "cd"), "cd");
    assert_eq!(concat3("a", "", "c"), "ac");
    assert_eq!(concat3("Connection ", "x", " not found"), "Connection x not found");
}

#[test]
fn decimal_text_has_no_leading_zeros() {
    assert_eq!(decimal_text(0), "0");
    assert_eq!(decimal_text(7), "7");
    assert_eq!(decimal_text(10), "10");
    assert_eq!(decimal_text(22), "22");
    assert_eq!(decimal_text(100), "100");
    assert_eq!(decimal_text(8080), "8080");
    assert_eq!(decimal_text(65535), "65535");
    for n in [1u16, 9, 19, 99, 101, 999, 1000, 12345, 60000] {
        assert_eq!(decimal_text(n), n.to_string());
    }
}

#[test]
fn chars_of_lists_every_character() {
    assert_eq!(chars_of(""), Vec::<char>::new());
    assert_eq!(chars_of("aé例"), vec!['a', 'é', '例']);
}

#[test]
fn letters_and_digits_are_what_the_standard_library_says() {
    let mut code: u32 = 0;
    while code <= 0x10FFFF {
        if let Some(c) = char::from_u32(code) {
            assert_eq!(letter_or_digit(c), c.is_alphanumeric(), "{:?}", c);
        }
        code += 1;
    }
}

#[test]
fn ascii_letters_and_digits_are_decided_here() {
    for c in ['a', 'z', 'A', 'Z', '0', '9', 'm', 'Q', '5'] {
        assert!(letter_or_digit(c));
    }
    for c in ['-', '_', '.', ':', ' ', '@', '[', '`', '{', '/', '\u{7f}', '\0'] {
        assert!(!letter_or_digit(c));
    }
    assert!(letter_or_digit('ü'));
    assert!(letter_or_digit('例'));
    assert!(letter_or_digit('٣'));
    assert!(!letter_or_digit('\u{a0}'));
    assert!(!letter_or_digit('€'));
}

#[test]
fn a_single_character_is_a_host_name_if_it_is_a_letter_or_digit() {
    let mut code: u32 = 0;
    while code <= 0x2FFF {
        if let Some(c) = char::from_u32(code) {
            let name = c.to_string();
            assert_eq!(hostname_is_valid(&name), c.is_alphanumeric(), "{:?}", c);
        }
        code += 1;
    }
}
