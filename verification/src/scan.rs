//! The rules of the grammar that hold no value inside them, run on a cursor.
//! Each function does what the rule of the same name in `grammar` states.

use crate::chars::{quoted_char, reserved, whitespace_char};
use crate::grammar;
use crate::grammar::Halt;
use crate::number::{scan_double, Scanned};
use crate::text::{Cursor, Span};
use crate::tree::{SpanInclusion, SpanString, SpanValue};
use vstd::prelude::*;

verus! {

/// Where a rule gave up, as a cursor, and whether the halt is fatal.
#[derive(Clone, Copy)]
pub struct Stop<'a> {
    pub at: Cursor<'a>,
    pub fatal: bool,
}

/// The cursor `e` is the position `j` of the text that `c` walks.
pub open spec fn lands<'a>(c: Cursor<'a>, e: Cursor<'a>, j: int) -> bool {
    e.text() == c.text() && e.index() == j && 0 <= j <= c.text().len()
}

/// The stop `h` is the halt `g` in the text that `c` walks.
pub open spec fn halts<'a>(c: Cursor<'a>, h: Stop<'a>, g: Halt) -> bool {
    lands(c, h.at, g.at) && h.fatal == g.fatal
}

/// A recoverable stop at `c`.
pub fn miss<'a>(c: Cursor<'a>) -> (h: Stop<'a>)
    ensures
        halts(c, h, Halt { at: c.index(), fatal: false }),
{
    proof {
        use_type_invariant(&c);
        c.lemma_bounds();
    }
    Stop { at: c, fatal: false }
}

/// Of two stops in one text the one deeper in the text, the first on a tie.
pub fn deeper<'a>(a: Stop<'a>, b: Stop<'a>) -> (h: Stop<'a>)
    ensures
        h == a || h == b,
        a.at.text() == b.at.text() ==> h == (if b.at.index() > a.at.index() {
            b
        } else {
            a
        }),
{
    if a.at.is_before(&b.at) {
        b
    } else {
        a
    }
}

/// Steps over the character `ch`, if it stands under the cursor.
pub fn expect<'a>(c: Cursor<'a>, ch: char) -> (r: Option<Cursor<'a>>)
    ensures
        match r {
            Some(e) => grammar::at(c.text(), c.index(), ch) && lands(c, e, c.index() + 1),
            None => !grammar::at(c.text(), c.index(), ch),
        },
{
    match c.next() {
        Some((found, after)) => if found == ch {
            Some(after)
        } else {
            None
        },
        None => None,
    }
}

/// Steps over `word`, if the text under the cursor begins with it.
pub fn keyword<'a>(c: Cursor<'a>, word: &str) -> (r: Option<Cursor<'a>>)
    ensures
        match r {
            Some(e) => grammar::starts_with(c.text(), c.index(), word@) && lands(
                c,
                e,
                c.index() + word@.len(),
            ),
            None => !grammar::starts_with(c.text(), c.index(), word@),
        },
{
    let ghost s = c.text();
    let ghost i = c.index();
    let mut at_text = c;
    let mut at_word = Cursor::start(word);
    proof {
        use_type_invariant(&c);
        c.lemma_bounds();
    }
    loop
        invariant
            0 <= i <= s.len(),
            s == c.text(),
            i == c.index(),
            lands(c, at_text, i + at_word.index()),
            at_word.text() == word@,
            s.subrange(i, i + at_word.index()) == word@.take(at_word.index()),
        decreases word@.len() - at_word.index(),
    {
        let ghost k = at_word.index();
        match at_word.next() {
            None => {
                proof {
                    assert(word@.take(k) =~= word@);
                }
                return Some(at_text);
            },
            Some((wanted, word_after)) => {
                match at_text.next() {
                    Some((found, text_after)) => {
                        if found == wanted {
                            proof {
                                assert(s.subrange(i, i + k + 1) =~= s.subrange(i, i + k).push(
                                    s[i + k],
                                ));
                                assert(word@.take(k + 1) =~= word@.take(k).push(word@[k]));
                            }
                            at_text = text_after;
                            at_word = word_after;
                        } else {
                            proof {
                                if grammar::starts_with(s, i, word@) {
                                    assert(s.subrange(i, i + word@.len())[k] == s[i + k]);
                                }
                            }
                            return None;
                        }
                    },
                    None => {
                        return None;
                    },
                }
            },
        }
    }
}

/// Steps over whitespace.
pub fn skip_whitespace<'a>(c: Cursor<'a>) -> (e: Cursor<'a>)
    ensures
        lands(c, e, grammar::whitespace_end(c.text(), c.index())),
        c.index() <= e.index(),
{
    let ghost s = c.text();
    let mut e = c;
    loop
        invariant
            s == c.text(),
            e.text() == s,
            c.index() <= e.index(),
            grammar::whitespace_end(s, c.index()) == grammar::whitespace_end(s, e.index()),
        decreases s.len() - e.index(),
    {
        match e.next() {
            Some((found, after)) => {
                if whitespace_char(found) {
                    e = after;
                } else {
                    return e;
                }
            },
            None => {
                return e;
            },
        }
    }
}

/// Steps over the characters that the body of a quoted string may hold.
pub fn skip_quoted_body<'a>(c: Cursor<'a>) -> (e: Cursor<'a>)
    ensures
        lands(c, e, grammar::quoted_end(c.text(), c.index())),
        c.index() <= e.index(),
{
    let ghost s = c.text();
    let mut e = c;
    loop
        invariant
            s == c.text(),
            e.text() == s,
            c.index() <= e.index(),
            grammar::quoted_end(s, c.index()) == grammar::quoted_end(s, e.index()),
        decreases s.len() - e.index(),
    {
        match e.next() {
            Some((found, after)) => {
                if quoted_char(found) {
                    e = after;
                } else {
                    return e;
                }
            },
            None => {
                return e;
            },
        }
    }
}

/// Steps over the characters of an unquoted string.
pub fn skip_unquoted<'a>(c: Cursor<'a>) -> (e: Cursor<'a>)
    ensures
        lands(c, e, grammar::unquoted_end(c.text(), c.index())),
        c.index() <= e.index(),
{
    let ghost s = c.text();
    let mut e = c;
    loop
        invariant
            s == c.text(),
            e.text() == s,
            c.index() <= e.index(),
            grammar::unquoted_end(s, c.index()) == grammar::unquoted_end(s, e.index()),
        decreases s.len() - e.index(),
    {
        match e.next() {
            Some((found, next)) => {
                if whitespace_char(found) || reserved(found) {
                    return e;
                }
                if found == '/' {
                    match next.peek() {
                        Some(second) => {
                            if second == '/' {
                                return e;
                            }
                        },
                        None => {},
                    }
                }
                e = next;
            },
            None => {
                return e;
            },
        }
    }
}

/// The rule `null`.
pub fn null<'a>(c: Cursor<'a>) -> (r: Result<(SpanValue, Cursor<'a>), Stop<'a>>)
    ensures
        match r {
            Ok((v, e)) => grammar::null(c.text(), c.index()) matches Ok((gv, j)) && lands(c, e, j)
                && v.wf(c.text()) && v.view(c.text()) == gv && c.index() < j,
            Err(h) => grammar::null(c.text(), c.index()) matches Err(g) && halts(c, h, g),
        },
{
    proof {
        reveal_strlit("null");
    }
    match keyword(c, "null") {
        Some(e) => Ok((SpanValue::HoconNull, e)),
        None => Err(miss(c)),
    }
}

/// The rule `boolean`.
pub fn boolean<'a>(c: Cursor<'a>) -> (r: Result<(SpanValue, Cursor<'a>), Stop<'a>>)
    ensures
        match r {
            Ok((v, e)) => grammar::boolean(c.text(), c.index()) matches Ok((gv, j)) && lands(
                c,
                e,
                j,
            ) && v.wf(c.text()) && v.view(c.text()) == gv && c.index() < j,
            Err(h) => grammar::boolean(c.text(), c.index()) matches Err(g) && halts(c, h, g),
        },
{
    proof {
        reveal_strlit("true");
        reveal_strlit("false");
    }
    match keyword(c, "true") {
        Some(e) => Ok((SpanValue::HoconBoolean(true), e)),
        None => match keyword(c, "false") {
            Some(e) => Ok((SpanValue::HoconBoolean(false), e)),
            None => Err(miss(c)),
        },
    }
}

/// What the rule `number` makes of the outcome `found` of scanning the rest
/// of the text for a number: the number and the cursor behind the literal, a
/// recoverable stop where there is no number, a fatal stop where the scan
/// gave up.
pub fn number_of<'a>(c: Cursor<'a>, found: Scanned<'a>) -> (r: Result<
    (SpanValue, Cursor<'a>),
    Stop<'a>,
>)
    requires
        found matches Scanned::Float(rest, _) ==> rest@.len() < c.remaining().len() && rest@
            == c.remaining().skip(c.remaining().len() - rest@.len()),
    ensures
        match found {
            Scanned::Float(rest, bits) => r matches Ok((v, e)) && v == SpanValue::HoconNumber(bits)
                && lands(c, e, c.text().len() - rest@.len()) && c.index() < e.index(),
            Scanned::Mismatch => r matches Err(h) && h == (Stop { at: c, fatal: false }),
            Scanned::Abort => r matches Err(h) && h == (Stop { at: c, fatal: true }),
        },
{
    proof {
        use_type_invariant(&c);
        c.lemma_bounds();
    }
    match found {
        Scanned::Float(rest, bits) => Ok((SpanValue::HoconNumber(bits), c.skip_to(rest))),
        Scanned::Mismatch => Err(Stop { at: c, fatal: false }),
        Scanned::Abort => Err(Stop { at: c, fatal: true }),
    }
}

/// The rule `number`.
pub fn number<'a>(c: Cursor<'a>) -> (r: Result<(SpanValue, Cursor<'a>), Stop<'a>>)
    ensures
        match r {
            Ok((v, e)) => grammar::number(c.text(), c.index()) matches Ok((gv, j)) && lands(
                c,
                e,
                j,
            ) && v.wf(c.text()) && v.view(c.text()) == gv && c.index() < j,
            Err(h) => grammar::number(c.text(), c.index()) matches Err(g) && halts(c, h, g),
        },
{
    proof {
        use_type_invariant(&c);
        c.lemma_bounds();
    }
    number_of(c, scan_double(c.rest()))
}

/// The rule `quoted`.
pub fn quoted<'a>(c: Cursor<'a>) -> (r: Result<(Span, Cursor<'a>), Stop<'a>>)
    ensures
        match r {
            Ok((t, e)) => grammar::quoted(c.text(), c.index()) matches Ok((gt, j)) && lands(c, e, j)
                && t.wf(c.text()) && t.chars(c.text()) == gt && c.index() < j,
            Err(h) => grammar::quoted(c.text(), c.index()) matches Err(g) && halts(c, h, g),
        },
{
    match expect(c, '"') {
        None => Err(miss(c)),
        Some(open) => {
            let close = skip_quoted_body(open);
            match expect(close, '"') {
                None => Err(miss(close)),
                Some(e) => Ok((open.span_to(&close), e)),
            }
        },
    }
}

/// The rule `unquoted`.
pub fn unquoted<'a>(c: Cursor<'a>) -> (r: Result<(Span, Cursor<'a>), Stop<'a>>)
    ensures
        match r {
            Ok((t, e)) => grammar::unquoted(c.text(), c.index()) matches Ok((gt, j)) && lands(
                c,
                e,
                j,
            ) && t.wf(c.text()) && t.chars(c.text()) == gt && c.index() < j,
            Err(h) => grammar::unquoted(c.text(), c.index()) matches Err(g) && halts(c, h, g),
        },
{
    let e = skip_unquoted(c);
    if c.is_before(&e) {
        Ok((c.span_to(&e), e))
    } else {
        Err(miss(c))
    }
}

/// The rule `string`.
pub fn string<'a>(c: Cursor<'a>) -> (r: Result<(SpanString, Cursor<'a>), Stop<'a>>)
    ensures
        match r {
            Ok((t, e)) => grammar::string(c.text(), c.index()) matches Ok((gt, j)) && lands(c, e, j)
                && t.wf(c.text()) && t.view(c.text()) == gt && c.index() < j,
            Err(h) => grammar::string(c.text(), c.index()) matches Err(g) && halts(c, h, g),
        },
{
    match unquoted(c) {
        Ok((t, e)) => Ok((SpanString::Unquoted(t), e)),
        Err(first) => match quoted(c) {
            Ok((t, e)) => Ok((SpanString::Quoted(t), e)),
            Err(second) => Err(deeper(first, second)),
        },
    }
}

/// The rule `resource`.
pub fn resource<'a>(c: Cursor<'a>, kind: &str) -> (r: Result<(Span, Cursor<'a>), Stop<'a>>)
    ensures
        match r {
            Ok((t, e)) => grammar::resource(c.text(), c.index(), kind@) matches Ok((gt, j))
                && lands(c, e, j) && t.wf(c.text()) && t.chars(c.text()) == gt && c.index() < j,
            Err(h) => grammar::resource(c.text(), c.index(), kind@) matches Err(g) && halts(
                c,
                h,
                g,
            ) && !g.fatal,
        },
{
    match keyword(c, kind) {
        None => Err(miss(c)),
        Some(after_kind) => match expect(after_kind, '(') {
            None => Err(miss(after_kind)),
            Some(open) => match quoted(open) {
                Err(h) => Err(h),
                Ok((path, close)) => match expect(close, ')') {
                    None => Err(miss(close)),
                    Some(e) => Ok((path, e)),
                },
            },
        },
    }
}

/// The rule `inclusion`.
pub fn inclusion<'a>(c: Cursor<'a>) -> (r: Result<(SpanInclusion, Cursor<'a>), Stop<'a>>)
    ensures
        match r {
            Ok((v, e)) => grammar::inclusion(c.text(), c.index()) matches Ok((gv, j)) && lands(
                c,
                e,
                j,
            ) && v.wf(c.text()) && v.view(c.text()) == gv && c.index() < j,
            Err(h) => grammar::inclusion(c.text(), c.index()) matches Err(g) && halts(c, h, g)
                && !g.fatal,
        },
{
    proof {
        reveal_strlit("include");
    }
    match keyword(c, "include") {
        None => Err(miss(c)),
        Some(after_word) => {
            let start = skip_whitespace(after_word);
            let first = match resource(start, "url") {
                Ok((path, e)) => {
                    return Ok((SpanInclusion::Url(path), e));
                },
                Err(h) => h,
            };
            let second = match resource(start, "file") {
                Ok((path, e)) => {
                    return Ok((SpanInclusion::File(path), e));
                },
                Err(h) => h,
            };
            let third = match resource(start, "classpath") {
                Ok((path, e)) => {
                    return Ok((SpanInclusion::Classpath(path), e));
                },
                Err(h) => h,
            };
            Err(deeper(deeper(first, second), third))
        },
    }
}

/// Steps over what follows an element: whitespace and at most one comma.
pub fn skip_separator<'a>(c: Cursor<'a>) -> (e: Cursor<'a>)
    ensures
        lands(c, e, grammar::separator_end(c.text(), c.index())),
        c.index() <= e.index(),
{
    let after = skip_whitespace(c);
    match expect(after, ',') {
        Some(e) => e,
        None => after,
    }
}

/// The rule `key_separator`.
pub fn key_separator<'a>(c: Cursor<'a>) -> (r: Result<Cursor<'a>, Stop<'a>>)
    ensures
        match r {
            Ok(e) => grammar::key_separator(c.text(), c.index()) matches Ok((_, j)) && lands(
                c,
                e,
                j,
            ) && c.index() <= j,
            Err(h) => grammar::key_separator(c.text(), c.index()) matches Err(g) && halts(c, h, g)
                && !g.fatal,
        },
{
    match c.next() {
        Some((found, after)) => {
            if found == ':' || found == '=' {
                Ok(after)
            } else if found == '{' {
                Ok(c)
            } else {
                Err(miss(c))
            }
        },
        None => Err(miss(c)),
    }
}

} // verus!
