//! Character classes of the grammar.

use vstd::prelude::*;

verus! {

/// The characters with the Unicode property `White_Space`: the controls from
/// tab to carriage return, the space, the next-line control, the no-break
/// space, the Ogham space mark, the spaces from en quad to hair space, the
/// line and the paragraph separator, the narrow no-break space, the medium
/// mathematical space and the ideographic space.
pub open spec fn is_unicode_whitespace(c: char) -> bool {
    ('\u{0009}' <= c && c <= '\u{000D}') || c == ' ' || c == '\u{0085}' || c == '\u{00A0}' || c
        == '\u{1680}' || ('\u{2000}' <= c && c <= '\u{200A}') || c == '\u{2028}' || c
        == '\u{2029}' || c == '\u{202F}' || c == '\u{205F}' || c == '\u{3000}'
}

/// The control characters that count as whitespace whatever Unicode says of
/// them: tab, line feed, vertical tab, form feed, carriage return, and the
/// four information separators.
pub open spec fn is_legacy_whitespace(c: char) -> bool {
    c == '\t' || c == '\n' || c == '\u{000B}' || c == '\u{000C}' || c == '\r' || c == '\u{001C}'
        || c == '\u{001D}' || c == '\u{001E}' || c == '\u{001F}'
}

/// Whitespace of the grammar: a character with the Unicode property
/// `White_Space`, or one of the legacy controls.
pub open spec fn is_whitespace(c: char) -> bool {
    is_unicode_whitespace(c) || is_legacy_whitespace(c)
}

/// An ASCII letter or an ASCII digit.
pub open spec fn is_alphanum(c: char) -> bool {
    ('a' <= c && c <= 'z') || ('A' <= c && c <= 'Z') || ('0' <= c && c <= '9')
}

/// A character that the body of a quoted string may hold.
pub open spec fn is_quoted_char(c: char) -> bool {
    is_alphanum(c) || c == '.'
}

/// A delimiter or operator character, which ends an unquoted string.
pub open spec fn is_reserved(c: char) -> bool {
    c == '$' || c == '"' || c == '{' || c == '}' || c == '[' || c == ']' || c == ':' || c == '='
        || c == ',' || c == '+' || c == '#' || c == '`' || c == '^' || c == '?' || c == '!' || c
        == '@' || c == '*' || c == '&' || c == '\\'
}

/// Whether `c` has the Unicode property `White_Space`.
pub fn unicode_whitespace(c: char) -> (r: bool)
    ensures
        r == is_unicode_whitespace(c),
{
    (c >= '\u{0009}' && c <= '\u{000D}') || c == ' ' || c == '\u{0085}' || c == '\u{00A0}' || c
        == '\u{1680}' || (c >= '\u{2000}' && c <= '\u{200A}') || c == '\u{2028}' || c
        == '\u{2029}' || c == '\u{202F}' || c == '\u{205F}' || c == '\u{3000}'
}

/// Whether `c` is whitespace of the grammar.
pub fn whitespace_char(c: char) -> (r: bool)
    ensures
        r == is_whitespace(c),
{
    unicode_whitespace(c) || c == '\u{001C}' || c == '\u{001D}' || c == '\u{001E}' || c
        == '\u{001F}'
}

/// Whether `c` is an ASCII letter or an ASCII digit.
pub fn alphanum(c: char) -> (r: bool)
    ensures
        r == is_alphanum(c),
{
    (c >= 'a' && c <= 'z') || (c >= 'A' && c <= 'Z') || (c >= '0' && c <= '9')
}

/// Whether the body of a quoted string may hold `c`.
pub fn quoted_char(c: char) -> (r: bool)
    ensures
        r == is_quoted_char(c),
{
    alphanum(c) || c == '.'
}

/// Whether `c` is a delimiter or operator character.
pub fn reserved(c: char) -> (r: bool)
    ensures
        r == is_reserved(c),
{
    c == '$' || c == '"' || c == '{' || c == '}' || c == '[' || c == ']' || c == ':' || c == '='
        || c == ',' || c == '+' || c == '#' || c == '`' || c == '^' || c == '?' || c == '!' || c
        == '@' || c == '*' || c == '&' || c == '\\'
}

} // verus!
