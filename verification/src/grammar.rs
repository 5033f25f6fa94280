//! The grammar, stated as functions on a sequence of characters and a
//! position in it. Each rule either yields a value together with the
//! position behind what it took, or halts at a position.
//!
//! A halt is recoverable or fatal. Alternation tries its branches in order:
//! the first that yields wins, a fatal halt ends the alternation at once, and
//! when every branch halts recoverably the halt that lies deepest in the text
//! is reported. A sequence halts where its first failing part halts. A
//! repetition ends at the first element that halts and never fails by itself.

use crate::chars::{is_quoted_char, is_reserved, is_whitespace};
use crate::number::{nom_double, Scan};
use crate::value::{FieldView, InclusionView, StringView, ValueView};
use vstd::prelude::*;

verus! {

/// Where a rule gave up, and whether the whole parse has to give up with it.
pub struct Halt {
    pub at: int,
    pub fatal: bool,
}

/// What a rule makes of a position: a value and the position behind it, or a
/// halt.
pub type Outcome<T> = Result<(T, int), Halt>;

/// What a repetition makes of a position: the values of the elements in
/// order, the position behind the last of them, and the halt of the element
/// that ended it.
pub struct Many<T> {
    pub items: Seq<T>,
    pub end: int,
    pub halt: Halt,
}

/// A recoverable halt at `at`.
pub open spec fn miss<T>(at: int) -> Outcome<T> {
    Err(Halt { at, fatal: false })
}

/// Of two recoverable halts the one deeper in the text, the first on a tie.
pub open spec fn deeper(a: Halt, b: Halt) -> Halt {
    if b.at > a.at {
        b
    } else {
        a
    }
}

/// Ordered alternation of two outcomes at one position.
pub open spec fn either<T>(a: Outcome<T>, b: Outcome<T>) -> Outcome<T> {
    match a {
        Ok(_) => a,
        Err(ha) => if ha.fatal {
            a
        } else {
            match b {
                Ok(_) => b,
                Err(hb) => if hb.fatal {
                    b
                } else {
                    Err(deeper(ha, hb))
                },
            }
        },
    }
}

/// The outcome `r` with what it yields turned into something else by `f`.
pub open spec fn turned<A, B>(r: Outcome<A>, f: spec_fn(A) -> B) -> Outcome<B> {
    match r {
        Ok((a, j)) => Ok((f(a), j)),
        Err(h) => Err(h),
    }
}

/// The character at position `i` is `c`.
pub open spec fn at(s: Seq<char>, i: int, c: char) -> bool {
    0 <= i < s.len() && s[i] == c
}

/// The characters from position `i` on begin with `word`.
pub open spec fn starts_with(s: Seq<char>, i: int, word: Seq<char>) -> bool {
    0 <= i && i + word.len() <= s.len() && s.subrange(i, i + word.len()) == word
}

/// The first position from `i` on that does not hold whitespace.
pub open spec fn whitespace_end(s: Seq<char>, i: int) -> int
    decreases s.len() - i,
{
    if 0 <= i < s.len() && is_whitespace(s[i]) {
        whitespace_end(s, i + 1)
    } else {
        i
    }
}

/// The first position from `i` on that does not hold a character of a quoted
/// string's body.
pub open spec fn quoted_end(s: Seq<char>, i: int) -> int
    decreases s.len() - i,
{
    if 0 <= i < s.len() && is_quoted_char(s[i]) {
        quoted_end(s, i + 1)
    } else {
        i
    }
}

/// An unquoted string cannot go on at position `i`: the text ends there, or
/// holds whitespace, a reserved character or the start of a `//` comment.
pub open spec fn unquoted_stop(s: Seq<char>, i: int) -> bool {
    ||| i >= s.len()
    ||| is_whitespace(s[i])
    ||| is_reserved(s[i])
    ||| (s[i] == '/' && at(s, i + 1, '/'))
}

/// The first position from `i` on at which an unquoted string stops.
pub open spec fn unquoted_end(s: Seq<char>, i: int) -> int
    decreases s.len() - i,
{
    if 0 <= i < s.len() && !unquoted_stop(s, i) {
        unquoted_end(s, i + 1)
    } else {
        i
    }
}

/// A run of whitespace ends at or behind its start and inside the text.
pub proof fn lemma_whitespace_end(s: Seq<char>, i: int)
    ensures
        i <= whitespace_end(s, i),
        whitespace_end(s, i) <= s.len() || whitespace_end(s, i) == i,
    decreases s.len() - i,
{
    if 0 <= i < s.len() && is_whitespace(s[i]) {
        lemma_whitespace_end(s, i + 1);
    }
}

/// The body of a quoted string ends at or behind its start and inside the
/// text.
pub proof fn lemma_quoted_end(s: Seq<char>, i: int)
    ensures
        i <= quoted_end(s, i),
        quoted_end(s, i) <= s.len() || quoted_end(s, i) == i,
    decreases s.len() - i,
{
    if 0 <= i < s.len() && is_quoted_char(s[i]) {
        lemma_quoted_end(s, i + 1);
    }
}

/// An unquoted string ends at or behind its start and inside the text.
pub proof fn lemma_unquoted_end(s: Seq<char>, i: int)
    ensures
        i <= unquoted_end(s, i),
        unquoted_end(s, i) <= s.len() || unquoted_end(s, i) == i,
    decreases s.len() - i,
{
    if 0 <= i < s.len() && !unquoted_stop(s, i) {
        lemma_unquoted_end(s, i + 1);
    }
}

/// Whitespace, then all of the text has to be used up: the empty document,
/// an object without fields.
pub open spec fn empty_content(s: Seq<char>, i: int) -> Outcome<ValueView> {
    let j = whitespace_end(s, i);
    if j >= s.len() {
        Ok((ValueView::HoconObject(Seq::empty()), j))
    } else {
        miss(j)
    }
}

/// The keyword `null`.
pub open spec fn null(s: Seq<char>, i: int) -> Outcome<ValueView> {
    if starts_with(s, i, "null"@) {
        Ok((ValueView::HoconNull, i + "null"@.len()))
    } else {
        miss(i)
    }
}

/// The keywords `true` and `false`.
pub open spec fn boolean(s: Seq<char>, i: int) -> Outcome<ValueView> {
    if starts_with(s, i, "true"@) {
        Ok((ValueView::HoconBoolean(true), i + "true"@.len()))
    } else if starts_with(s, i, "false"@) {
        Ok((ValueView::HoconBoolean(false), i + "false"@.len()))
    } else {
        miss(i)
    }
}

/// A floating-point literal, as `nom` recognises it. A literal is never
/// empty and never longer than the text: the condition on `consumed` only
/// keeps the rule inside the text for every outcome that can be named.
pub open spec fn number(s: Seq<char>, i: int) -> Outcome<ValueView> {
    match nom_double(s.skip(i)) {
        Scan::Float { consumed, bits } => if 0 < consumed <= s.len() - i {
            Ok((ValueView::HoconNumber(bits), i + consumed))
        } else {
            miss(i)
        },
        Scan::Mismatch => miss(i),
        Scan::Abort => Err(Halt { at: i, fatal: true }),
    }
}

/// A quoted string: a quotation mark, a body, and a quotation mark. The body
/// runs up to the first character that is neither alphanumeric nor a dot, so
/// that this character has to be the closing quotation mark; there are no
/// escape sequences, and a body cannot hold a quotation mark. The value is
/// the body.
pub open spec fn quoted(s: Seq<char>, i: int) -> Outcome<Seq<char>> {
    if at(s, i, '"') {
        let j = quoted_end(s, i + 1);
        if at(s, j, '"') {
            Ok((s.subrange(i + 1, j), j + 1))
        } else {
            miss(j)
        }
    } else {
        miss(i)
    }
}

/// An unquoted string: the longest run of characters up to where an unquoted
/// string stops, at least one.
pub open spec fn unquoted(s: Seq<char>, i: int) -> Outcome<Seq<char>> {
    let j = unquoted_end(s, i);
    if j > i {
        Ok((s.subrange(i, j), j))
    } else {
        miss(i)
    }
}

/// A string, unquoted or quoted.
pub open spec fn string(s: Seq<char>, i: int) -> Outcome<StringView> {
    either(
        turned(unquoted(s, i), |t: Seq<char>| StringView::Unquoted(t)),
        turned(quoted(s, i), |t: Seq<char>| StringView::Quoted(t)),
    )
}

/// A string takes at least one character and ends inside the text.
pub proof fn lemma_string_end(s: Seq<char>, i: int)
    ensures
        string(s, i) matches Ok((_, j)) ==> i < j <= s.len(),
{
    lemma_unquoted_end(s, i);
    lemma_quoted_end(s, i + 1);
}

/// The characters of a string, however it was written.
pub open spec fn content(t: StringView) -> Seq<char> {
    match t {
        StringView::Quoted(c) => c,
        StringView::Unquoted(c) => c,
    }
}

/// A kind of resource, and in parentheses a quoted string that names one.
pub open spec fn resource(s: Seq<char>, i: int, kind: Seq<char>) -> Outcome<Seq<char>> {
    if !starts_with(s, i, kind) {
        miss(i)
    } else if !at(s, i + kind.len(), '(') {
        miss(i + kind.len())
    } else {
        match quoted(s, i + kind.len() + 1) {
            Err(h) => Err(h),
            Ok((path, j)) => if at(s, j, ')') {
                Ok((path, j + 1))
            } else {
                miss(j)
            },
        }
    }
}

/// An inclusion directive: the keyword `include`, whitespace, and a resource
/// of kind `url`, `file` or `classpath`.
pub open spec fn inclusion(s: Seq<char>, i: int) -> Outcome<InclusionView> {
    if starts_with(s, i, "include"@) {
        let j = whitespace_end(s, i + "include"@.len());
        either(
            either(
                turned(resource(s, j, "url"@), |p: Seq<char>| InclusionView::Url(p)),
                turned(resource(s, j, "file"@), |p: Seq<char>| InclusionView::File(p)),
            ),
            turned(resource(s, j, "classpath"@), |p: Seq<char>| InclusionView::Classpath(p)),
        )
    } else {
        miss(i)
    }
}

/// What follows an element: whitespace and at most one comma.
pub open spec fn separator_end(s: Seq<char>, i: int) -> int {
    let j = whitespace_end(s, i);
    if at(s, j, ',') {
        j + 1
    } else {
        j
    }
}

/// What stands between a key and its value: a colon or an equals sign, which
/// is taken, or an opening brace, which is left for the value.
pub open spec fn key_separator(s: Seq<char>, i: int) -> Outcome<()> {
    if at(s, i, ':') || at(s, i, '=') {
        Ok(((), i + 1))
    } else if at(s, i, '{') {
        Ok(((), i))
    } else {
        miss(i)
    }
}

/// The alternatives of a value that hold no other value, in their order:
/// `null`, an inclusion, a boolean, a number.
pub open spec fn scalar(s: Seq<char>, i: int) -> Outcome<ValueView> {
    either(
        either(
            either(
                null(s, i),
                turned(inclusion(s, i), |inc: InclusionView| ValueView::HoconInclude(inc)),
            ),
            boolean(s, i),
        ),
        number(s, i),
    )
}

/// The two alternatives of a value that come last: an unquoted string, then
/// a quoted one.
pub open spec fn string_value(s: Seq<char>, i: int) -> Outcome<ValueView> {
    turned(string(s, i), |t: StringView| ValueView::HoconString(t))
}

/// A value: the first that matches of `null`, an inclusion, a boolean, a
/// number, an array, an object, an unquoted string, a quoted string.
pub open spec fn value(s: Seq<char>, i: int) -> Outcome<ValueView>
    decreases s.len() - i, 6int,
{
    either(either(either(scalar(s, i), array(s, i)), object(s, i)), string_value(s, i))
}

/// An array: elements between square brackets.
pub open spec fn array(s: Seq<char>, i: int) -> Outcome<ValueView>
    decreases s.len() - i, 5int,
{
    if at(s, i, '[') {
        let m = elements(s, i + 1);
        if m.halt.fatal {
            Err(m.halt)
        } else if at(s, m.end, ']') {
            Ok((ValueView::HoconArray(m.items), m.end + 1))
        } else {
            Err(deeper(Halt { at: m.end, fatal: false }, m.halt))
        }
    } else {
        miss(i)
    }
}

/// As many elements of an array as follow one another from `i` on. An
/// element always takes at least one character (see `theorems`); the
/// condition on where it ends lets the definition be seen to terminate.
pub open spec fn elements(s: Seq<char>, i: int) -> Many<ValueView>
    decreases s.len() - i, 8int,
{
    match element(s, i) {
        Err(h) => Many { items: Seq::empty(), end: i, halt: h },
        Ok((v, j)) => if i < j <= s.len() {
            let m = elements(s, j);
            Many { items: seq![v] + m.items, end: m.end, halt: m.halt }
        } else {
            Many { items: Seq::empty(), end: i, halt: Halt { at: i, fatal: false } }
        },
    }
}

/// An element of an array: whitespace, a value, and what follows an element.
pub open spec fn element(s: Seq<char>, i: int) -> Outcome<ValueView>
    decreases s.len() - i, 7int,
{
    let j = whitespace_end(s, i);
    proof {
        lemma_whitespace_end(s, i);
    }
    match value(s, j) {
        Err(h) => Err(h),
        Ok((v, k)) => Ok((v, separator_end(s, k))),
    }
}

/// An object between braces, with any number of fields.
pub open spec fn braced(s: Seq<char>, i: int) -> Outcome<ValueView>
    decreases s.len() - i, 4int,
{
    if at(s, i, '{') {
        let m = fields(s, i + 1);
        if m.halt.fatal {
            Err(m.halt)
        } else if at(s, m.end, '}') {
            Ok((ValueView::HoconObject(m.items), m.end + 1))
        } else {
            Err(deeper(Halt { at: m.end, fatal: false }, m.halt))
        }
    } else {
        miss(i)
    }
}

/// An object without braces, with at least one field.
pub open spec fn braceless(s: Seq<char>, i: int) -> Outcome<ValueView>
    decreases s.len() - i, 4int,
{
    let m = fields(s, i);
    if m.halt.fatal || m.items.len() == 0 {
        Err(m.halt)
    } else {
        Ok((ValueView::HoconObject(m.items), m.end))
    }
}

/// An object, with braces or without.
pub open spec fn object(s: Seq<char>, i: int) -> Outcome<ValueView>
    decreases s.len() - i, 5int,
{
    either(braced(s, i), braceless(s, i))
}

/// As many fields of an object as follow one another from `i` on. A field
/// always takes at least one character (see `theorems`); the condition on
/// where it ends lets the definition be seen to terminate.
pub open spec fn fields(s: Seq<char>, i: int) -> Many<FieldView>
    decreases s.len() - i, 3int,
{
    match field(s, i) {
        Err(h) => Many { items: Seq::empty(), end: i, halt: h },
        Ok((f, j)) => if i < j <= s.len() {
            let m = fields(s, j);
            Many { items: seq![f] + m.items, end: m.end, halt: m.halt }
        } else {
            Many { items: Seq::empty(), end: i, halt: Halt { at: i, fatal: false } }
        },
    }
}

/// A field: an inclusion directive, or else a key with its value.
pub open spec fn field(s: Seq<char>, i: int) -> Outcome<FieldView>
    decreases s.len() - i, 2int,
{
    either(turned(inclusion(s, i), |inc: InclusionView| FieldView::Include(inc)), key_value(s, i))
}

/// A key with its value: whitespace, a string as the key, whitespace, what
/// stands between key and value, whitespace, a value, and what follows an
/// element.
pub open spec fn key_value(s: Seq<char>, i: int) -> Outcome<FieldView>
    decreases s.len() - i, 1int,
{
    match string(s, whitespace_end(s, i)) {
        Err(h) => Err(h),
        Ok((key, j)) => match key_separator(s, whitespace_end(s, j)) {
            Err(h) => Err(h),
            Ok((_, k)) => {
                proof {
                    lemma_whitespace_end(s, i);
                    lemma_string_end(s, whitespace_end(s, i));
                    lemma_whitespace_end(s, j);
                    lemma_whitespace_end(s, k);
                }
                match value(s, whitespace_end(s, k)) {
                    Err(h) => Err(h),
                    Ok((v, end)) => Ok(
                        (FieldView::KeyValue(content(key), v), separator_end(s, end)),
                    ),
                }
            },
        },
    }
}

/// What a rule that yielded at the start of a document comes to for the
/// document: the text has to be used up, apart from whitespace behind what
/// the rule took.
pub open spec fn complete(s: Seq<char>, r: Outcome<ValueView>) -> Outcome<ValueView> {
    match r {
        Ok((v, j)) => {
            let end = whitespace_end(s, j);
            if end >= s.len() {
                Ok((v, end))
            } else {
                miss(end)
            }
        },
        Err(h) => Err(h),
    }
}

/// A document without braces from position `i` on: at least one field, and
/// then nothing but whitespace up to the end of the text. Where text is left over, the halt is
/// the deeper of the place where it begins and the halt of the field that
/// ended the fields.
pub open spec fn bare_document(s: Seq<char>, i: int) -> Outcome<ValueView> {
    let m = fields(s, i);
    if m.halt.fatal || m.items.len() == 0 {
        Err(m.halt)
    } else {
        let end = whitespace_end(s, m.end);
        if end >= s.len() {
            Ok((ValueView::HoconObject(m.items), end))
        } else {
            Err(deeper(Halt { at: end, fatal: false }, m.halt))
        }
    }
}

/// A whole document: the empty document, or an object with braces or
/// without, or any other value, each as the whole of the text.
pub open spec fn document(s: Seq<char>) -> Outcome<ValueView> {
    either(
        either(either(empty_content(s, 0), complete(s, braced(s, 0))), bare_document(s, 0)),
        complete(s, value(s, 0)),
    )
}

} // verus!
