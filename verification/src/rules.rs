//! The rules of the grammar that hold values inside them, run on a cursor.
//! Each function does what the rule of the same name in `grammar` states,
//! and builds a tree of spans.

use crate::grammar;
use crate::grammar::Outcome;
use crate::scan;
use crate::scan::{halts, lands, Stop};
use crate::text::{Cursor, Span};
use crate::tree::{fields_view, items_view, SpanField, SpanValue};
use crate::value::{FieldView, ValueView};
use vstd::prelude::*;

verus! {

/// What a rule for a value returned is what the grammar states: the same
/// value at the same position, or the same halt.
pub open spec fn yields_value<'a>(
    c: Cursor<'a>,
    r: Result<(SpanValue, Cursor<'a>), Stop<'a>>,
    g: Outcome<ValueView>,
) -> bool {
    match r {
        Ok((v, e)) => g matches Ok((gv, j)) && lands(c, e, j) && v.wf(c.text()) && v.view(
            c.text(),
        ) == gv,
        Err(h) => g matches Err(gh) && halts(c, h, gh),
    }
}

/// What a rule for a field returned is what the grammar states.
pub open spec fn yields_field<'a>(
    c: Cursor<'a>,
    r: Result<(SpanField, Cursor<'a>), Stop<'a>>,
    g: Outcome<FieldView>,
) -> bool {
    match r {
        Ok((f, e)) => g matches Ok((gf, j)) && lands(c, e, j) && f.wf(c.text()) && f.view(
            c.text(),
        ) == gf,
        Err(h) => g matches Err(gh) && halts(c, h, gh),
    }
}

/// A rule that yielded took at least one character.
pub open spec fn advances<'a, T>(c: Cursor<'a>, r: Result<(T, Cursor<'a>), Stop<'a>>) -> bool {
    r matches Ok((_, e)) ==> c.index() < e.index()
}

/// The values that a repetition gathered.
pub struct Gathered<'a, T> {
    pub items: Vec<T>,
    pub end: Cursor<'a>,
    pub halt: Stop<'a>,
}

/// What follows a first alternative that halted recoverably: the outcome of
/// the second, or the deeper of the two halts.
pub fn or_else<'a, T>(first: Stop<'a>, second: Result<(T, Cursor<'a>), Stop<'a>>) -> (r: Result<
    (T, Cursor<'a>),
    Stop<'a>,
>)
    ensures
        match second {
            Ok(found) => r == second,
            Err(h) => if h.fatal {
                r == second
            } else {
                &&& r == second || r == Err::<(T, Cursor<'a>), Stop<'a>>(first)
                &&& h.at.text() == first.at.text() ==> r == (if h.at.index() > first.at.index() {
                    second
                } else {
                    Err(first)
                })
            },
        },
{
    match second {
        Ok(found) => Ok(found),
        Err(h) => if h.fatal {
            Err(h)
        } else {
            Err(scan::deeper(first, h))
        },
    }
}

/// The rule `empty_content`.
pub fn empty_content<'a>(c: Cursor<'a>) -> (r: Result<(SpanValue, Cursor<'a>), Stop<'a>>)
    ensures
        yields_value(c, r, grammar::empty_content(c.text(), c.index())),
        r matches Err(h) ==> !h.fatal,
{
    let e = scan::skip_whitespace(c);
    if e.at_end() {
        let v = SpanValue::HoconObject(Vec::new());
        proof {
            assert(fields_view(Seq::<SpanField>::empty(), c.text()) =~= Seq::<FieldView>::empty());
        }
        Ok((v, e))
    } else {
        Err(scan::miss(e))
    }
}

/// The rule `scalar`.
pub fn scalar<'a>(c: Cursor<'a>) -> (r: Result<(SpanValue, Cursor<'a>), Stop<'a>>)
    ensures
        yields_value(c, r, grammar::scalar(c.text(), c.index())),
        advances(c, r),
{
    let h = match scan::null(c) {
        Ok(found) => {
            return Ok(found);
        },
        Err(h) => h,
    };
    let second = match scan::inclusion(c) {
        Ok((inc, e)) => Ok((SpanValue::HoconInclude(inc), e)),
        Err(h) => Err(h),
    };
    let h = match or_else(h, second) {
        Ok(found) => {
            return Ok(found);
        },
        Err(h) => h,
    };
    let h = match or_else(h, scan::boolean(c)) {
        Ok(found) => {
            return Ok(found);
        },
        Err(h) => h,
    };
    or_else(h, scan::number(c))
}

/// The rule `string_value`.
pub fn string_value<'a>(c: Cursor<'a>) -> (r: Result<(SpanValue, Cursor<'a>), Stop<'a>>)
    ensures
        yields_value(c, r, grammar::string_value(c.text(), c.index())),
        advances(c, r),
        r matches Err(h) ==> !h.fatal,
{
    match scan::string(c) {
        Ok((t, e)) => Ok((SpanValue::HoconString(t), e)),
        Err(h) => Err(h),
    }
}

/// The rule `value`.
pub fn value<'a>(c: Cursor<'a>) -> (r: Result<(SpanValue, Cursor<'a>), Stop<'a>>)
    ensures
        yields_value(c, r, grammar::value(c.text(), c.index())),
        advances(c, r),
    decreases c.text().len() - c.index(), 7int,
{
    let h = match scalar(c) {
        Ok(found) => {
            return Ok(found);
        },
        Err(h) => h,
    };
    if h.fatal {
        return Err(h);
    }
    let h = match or_else(h, array(c)) {
        Ok(found) => {
            return Ok(found);
        },
        Err(h) => h,
    };
    if h.fatal {
        return Err(h);
    }
    let h = match or_else(h, object(c)) {
        Ok(found) => {
            return Ok(found);
        },
        Err(h) => h,
    };
    if h.fatal {
        return Err(h);
    }
    or_else(h, string_value(c))
}

/// The rule `array`.
pub fn array<'a>(c: Cursor<'a>) -> (r: Result<(SpanValue, Cursor<'a>), Stop<'a>>)
    ensures
        yields_value(c, r, grammar::array(c.text(), c.index())),
        advances(c, r),
    decreases c.text().len() - c.index(), 6int,
{
    match scan::expect(c, '[') {
        None => Err(scan::miss(c)),
        Some(open) => {
            let found = elements(open);
            if found.halt.fatal {
                return Err(found.halt);
            }
            match scan::expect(found.end, ']') {
                Some(e) => Ok((SpanValue::HoconArray(found.items), e)),
                None => Err(scan::deeper(scan::miss(found.end), found.halt)),
            }
        },
    }
}

/// The rule `elements`.
pub fn elements<'a>(c: Cursor<'a>) -> (r: Gathered<'a, SpanValue>)
    ensures
        ({
            let m = grammar::elements(c.text(), c.index());
            &&& items_view(r.items@, c.text()) == m.items
            &&& forall|k: int| 0 <= k < r.items.len() ==> (#[trigger] r.items[k]).wf(c.text())
            &&& lands(c, r.end, m.end)
            &&& halts(c, r.halt, m.halt)
            &&& c.index() <= m.end
        }),
    decreases c.text().len() - c.index(), 9int,
{
    let ghost s = c.text();
    let ghost whole = grammar::elements(s, c.index());
    let mut items: Vec<SpanValue> = Vec::new();
    let mut at = c;
    proof {
        use_type_invariant(&c);
        c.lemma_bounds();
        assert(items_view(items@, s) =~= Seq::<ValueView>::empty());
        assert(items_view(items@, s) + whole.items =~= whole.items);
    }
    loop
        invariant
            s == c.text(),
            whole == grammar::elements(s, c.index()),
            lands(c, at, at.index()),
            c.index() <= at.index(),
            forall|k: int| 0 <= k < items.len() ==> (#[trigger] items[k]).wf(s),
            whole.items == items_view(items@, s) + grammar::elements(s, at.index()).items,
            whole.end == grammar::elements(s, at.index()).end,
            whole.halt == grammar::elements(s, at.index()).halt,
        decreases s.len() - at.index(),
    {
        match element(at) {
            Err(h) => {
                proof {
                    assert(whole.items =~= items_view(items@, s));
                }
                return Gathered { items, end: at, halt: h };
            },
            Ok((v, next)) => {
                proof {
                    let before = items_view(items@, s);
                    let after = items_view(items@.push(v), s);
                    let rest = grammar::elements(s, next.index());
                    assert(after =~= before.push(v.view(s)));
                    assert(before + (seq![v.view(s)] + rest.items) =~= after + rest.items);
                }
                items.push(v);
                at = next;
            },
        }
    }
}

/// The rule `element`.
pub fn element<'a>(c: Cursor<'a>) -> (r: Result<(SpanValue, Cursor<'a>), Stop<'a>>)
    ensures
        yields_value(c, r, grammar::element(c.text(), c.index())),
        advances(c, r),
    decreases c.text().len() - c.index(), 8int,
{
    let start = scan::skip_whitespace(c);
    match value(start) {
        Err(h) => Err(h),
        Ok((v, after)) => Ok((v, scan::skip_separator(after))),
    }
}

/// The rule `braced`.
pub fn braced<'a>(c: Cursor<'a>) -> (r: Result<(SpanValue, Cursor<'a>), Stop<'a>>)
    ensures
        yields_value(c, r, grammar::braced(c.text(), c.index())),
        advances(c, r),
    decreases c.text().len() - c.index(), 5int,
{
    match scan::expect(c, '{') {
        None => Err(scan::miss(c)),
        Some(open) => {
            let found = fields(open);
            if found.halt.fatal {
                return Err(found.halt);
            }
            match scan::expect(found.end, '}') {
                Some(e) => Ok((SpanValue::HoconObject(found.items), e)),
                None => Err(scan::deeper(scan::miss(found.end), found.halt)),
            }
        },
    }
}

/// The rule `braceless`.
pub fn braceless<'a>(c: Cursor<'a>) -> (r: Result<(SpanValue, Cursor<'a>), Stop<'a>>)
    ensures
        yields_value(c, r, grammar::braceless(c.text(), c.index())),
        advances(c, r),
    decreases c.text().len() - c.index(), 5int,
{
    let found = fields(c);
    if found.halt.fatal || found.items.len() == 0 {
        Err(found.halt)
    } else {
        Ok((SpanValue::HoconObject(found.items), found.end))
    }
}

/// The rule `object`.
pub fn object<'a>(c: Cursor<'a>) -> (r: Result<(SpanValue, Cursor<'a>), Stop<'a>>)
    ensures
        yields_value(c, r, grammar::object(c.text(), c.index())),
        advances(c, r),
    decreases c.text().len() - c.index(), 6int,
{
    let h = match braced(c) {
        Ok(found) => {
            return Ok(found);
        },
        Err(h) => h,
    };
    if h.fatal {
        return Err(h);
    }
    or_else(h, braceless(c))
}

/// The rule `fields`.
pub fn fields<'a>(c: Cursor<'a>) -> (r: Gathered<'a, SpanField>)
    ensures
        ({
            let m = grammar::fields(c.text(), c.index());
            &&& fields_view(r.items@, c.text()) == m.items
            &&& forall|k: int| 0 <= k < r.items.len() ==> (#[trigger] r.items[k]).wf(c.text())
            &&& lands(c, r.end, m.end)
            &&& halts(c, r.halt, m.halt)
            &&& c.index() <= m.end
            &&& r.items.len() > 0 ==> c.index() < m.end
        }),
    decreases c.text().len() - c.index(), 4int,
{
    let ghost s = c.text();
    let ghost whole = grammar::fields(s, c.index());
    let mut items: Vec<SpanField> = Vec::new();
    let mut at = c;
    proof {
        use_type_invariant(&c);
        c.lemma_bounds();
        assert(fields_view(items@, s) =~= Seq::<FieldView>::empty());
        assert(fields_view(items@, s) + whole.items =~= whole.items);
    }
    loop
        invariant
            s == c.text(),
            whole == grammar::fields(s, c.index()),
            lands(c, at, at.index()),
            c.index() <= at.index(),
            items.len() > 0 ==> c.index() < at.index(),
            forall|k: int| 0 <= k < items.len() ==> (#[trigger] items[k]).wf(s),
            whole.items == fields_view(items@, s) + grammar::fields(s, at.index()).items,
            whole.end == grammar::fields(s, at.index()).end,
            whole.halt == grammar::fields(s, at.index()).halt,
        decreases s.len() - at.index(),
    {
        match field(at) {
            Err(h) => {
                proof {
                    assert(whole.items =~= fields_view(items@, s));
                }
                return Gathered { items, end: at, halt: h };
            },
            Ok((f, next)) => {
                proof {
                    let before = fields_view(items@, s);
                    let after = fields_view(items@.push(f), s);
                    let rest = grammar::fields(s, next.index());
                    assert(after =~= before.push(f.view(s)));
                    assert(before + (seq![f.view(s)] + rest.items) =~= after + rest.items);
                }
                items.push(f);
                at = next;
            },
        }
    }
}

/// The rule `field`.
pub fn field<'a>(c: Cursor<'a>) -> (r: Result<(SpanField, Cursor<'a>), Stop<'a>>)
    ensures
        yields_field(c, r, grammar::field(c.text(), c.index())),
        advances(c, r),
    decreases c.text().len() - c.index(), 3int,
{
    match scan::inclusion(c) {
        Ok((inc, e)) => Ok((SpanField::Include(inc), e)),
        Err(h) => or_else(h, key_value(c)),
    }
}

/// The rule `key_value`, with the key and the value apart.
pub fn key_and_value<'a>(c: Cursor<'a>) -> (r: Result<((Span, SpanValue), Cursor<'a>), Stop<'a>>)
    ensures
        match r {
            Ok(((key, v), e)) => grammar::key_value(c.text(), c.index()) matches Ok((gf, j))
                && lands(c, e, j) && key.wf(c.text()) && v.wf(c.text()) && gf
                == FieldView::KeyValue(key.chars(c.text()), v.view(c.text())),
            Err(h) => grammar::key_value(c.text(), c.index()) matches Err(gh) && halts(c, h, gh),
        },
        advances(c, r),
    decreases c.text().len() - c.index(), 1int,
{
    let key_start = scan::skip_whitespace(c);
    let (key, after_key) = match scan::string(key_start) {
        Ok(found) => found,
        Err(h) => {
            return Err(h);
        },
    };
    let after_separator = match scan::key_separator(scan::skip_whitespace(after_key)) {
        Ok(e) => e,
        Err(h) => {
            return Err(h);
        },
    };
    let value_start = scan::skip_whitespace(after_separator);
    match value(value_start) {
        Err(h) => Err(h),
        Ok((v, after_value)) => Ok(((key.content(), v), scan::skip_separator(after_value))),
    }
}

/// The rule `key_value`.
pub fn key_value<'a>(c: Cursor<'a>) -> (r: Result<(SpanField, Cursor<'a>), Stop<'a>>)
    ensures
        yields_field(c, r, grammar::key_value(c.text(), c.index())),
        advances(c, r),
    decreases c.text().len() - c.index(), 2int,
{
    match key_and_value(c) {
        Ok(((key, v), e)) => Ok((SpanField::KeyValue(key, v), e)),
        Err(h) => Err(h),
    }
}

/// The rule `complete`, for what a rule returned.
pub fn complete<'a>(found: Result<(SpanValue, Cursor<'a>), Stop<'a>>) -> (r: Result<
    (SpanValue, Cursor<'a>),
    Stop<'a>,
>)
    ensures
        match found {
            Ok((v, e)) => {
                let end = grammar::whitespace_end(e.text(), e.index());
                if end >= e.text().len() {
                    r matches Ok((got, at)) && got == v && lands(e, at, end)
                } else {
                    r matches Err(h) && halts(e, h, grammar::Halt { at: end, fatal: false })
                }
            },
            Err(h) => r == found,
        },
{
    match found {
        Ok((v, e)) => {
            let end = scan::skip_whitespace(e);
            if end.at_end() {
                Ok((v, end))
            } else {
                Err(scan::miss(end))
            }
        },
        Err(h) => Err(h),
    }
}

/// The rule `bare_document`.
pub fn bare_document<'a>(c: Cursor<'a>) -> (r: Result<(SpanValue, Cursor<'a>), Stop<'a>>)
    ensures
        yields_value(c, r, grammar::bare_document(c.text(), c.index())),
{
    let found = fields(c);
    if found.halt.fatal || found.items.len() == 0 {
        return Err(found.halt);
    }
    let end = scan::skip_whitespace(found.end);
    if end.at_end() {
        Ok((SpanValue::HoconObject(found.items), end))
    } else {
        Err(scan::deeper(scan::miss(end), found.halt))
    }
}

/// The rule `document`, from the start of `text`.
pub fn document<'a>(text: &'a str) -> (r: Result<(SpanValue, Cursor<'a>), Stop<'a>>)
    ensures
        match r {
            Ok((v, e)) => grammar::document(text@) matches Ok((gv, j)) && e.text() == text@
                && e.index() == j && v.wf(text@) && v.view(text@) == gv,
            Err(h) => grammar::document(text@) matches Err(g) && h.at.text() == text@
                && h.at.index() == g.at && h.fatal == g.fatal,
        },
{
    let c = Cursor::start(text);
    let h = match empty_content(c) {
        Ok(found) => {
            return Ok(found);
        },
        Err(h) => h,
    };
    let h = match or_else(h, complete(braced(c))) {
        Ok(found) => {
            return Ok(found);
        },
        Err(h) => h,
    };
    if h.fatal {
        return Err(h);
    }
    let h = match or_else(h, bare_document(c)) {
        Ok(found) => {
            return Ok(found);
        },
        Err(h) => h,
    };
    if h.fatal {
        return Err(h);
    }
    or_else(h, complete(value(c)))
}

} // verus!
