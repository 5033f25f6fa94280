use hocon_rs::chars::{alphanum, quoted_char, reserved, unicode_whitespace, whitespace_char};

fn every_char() -> impl Iterator<Item = char> {
    (0u32..=0x10FFFF).filter_map(char::from_u32)
}

#[test]
fn unicode_whitespace_is_the_white_space_property() {
    for c in every_char() {
        assert_eq!(unicode_whitespace(c), c.is_whitespace(), "U+{:04X}", c as u32);
    }
}

#[test]
fn whitespace_adds_the_legacy_controls() {
    let legacy = [
        '\t', '\n', '\u{000B}', '\u{000C}', '\r', '\u{001C}', '\u{001D}', '\u{001E}', '\u{001F}',
    ];
    for c in every_char() {
        assert_eq!(
            whitespace_char(c),
            c.is_whitespace() || legacy.contains(&c),
            "U+{:04X}",
            c as u32
        );
    }
    assert!(whitespace_char('\u{001C}'));
    assert!(!'\u{001C}'.is_whitespace());
}

#[test]
fn alphanum_is_ascii_letters_and_digits() {
    for c in every_char() {
        assert_eq!(alphanum(c), c.is_ascii_alphanumeric(), "U+{:04X}", c as u32);
        assert_eq!(quoted_char(c), c.is_ascii_alphanumeric() || c == '.', "U+{:04X}", c as u32);
    }
}

#[test]
fn reserved_characters() {
    let listed = "$\"{}[]:=,+#`^?!@*&\\";
    for c in every_char() {
        assert_eq!(reserved(c), listed.contains(c), "U+{:04X}", c as u32);
    }
}
