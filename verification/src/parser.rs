//! Parsing a text into a value tree.
//!
//! [`parse`] reads a whole document. The other functions each run one rule of
//! the grammar at the start of a text and hand back what is left of the text
//! together with what the rule yields. What each rule accepts is stated in
//! `grammar`; every contract here refers to the rule of the same name there.

use crate::error::{diagnostic, failure, HoconError};
use crate::grammar;
use crate::grammar::Outcome;
use crate::rules;
use crate::scan;
use crate::scan::Stop;
use crate::text::Cursor;
use crate::tree::SpanValue;
use crate::value::{FieldView, HoconField, HoconInclusion, HoconValue, ValueView};
use vstd::prelude::*;

verus! {

/// `r` is what the outcome `g` of a rule for values at the start of `input`
/// comes to: the value and the rest of the text, or the failure that reports
/// the halt.
pub open spec fn answers_value<'a>(
    input: Seq<char>,
    r: Result<(&'a str, HoconValue<'a>), HoconError>,
    g: Outcome<ValueView>,
) -> bool {
    match g {
        Ok((v, j)) => r matches Ok((rest, got)) && got@ == v && rest@ == input.skip(j),
        Err(h) => r matches Err(e) && e.message() == diagnostic(input, h),
    }
}

/// The rest of the text and the tree of slices for what a rule for values
/// returned, or the failure for its stop.
fn finish_value<'a>(input: &'a str, found: Result<(SpanValue, Cursor<'a>), Stop<'a>>) -> (r: Result<
    (&'a str, HoconValue<'a>),
    HoconError,
>)
    requires
        found matches Ok((v, e)) ==> e.text() == input@ && v.wf(input@),
        found matches Err(h) ==> h.at.text() == input@,
    ensures
        match found {
            Ok((v, e)) => r matches Ok((rest, got)) && got@ == v.view(input@) && rest@
                == input@.skip(e.index()),
            Err(h) => r matches Err(e) && e.message() == diagnostic(
                input@,
                grammar::Halt { at: h.at.index(), fatal: h.fatal },
            ),
        },
{
    match found {
        Ok((v, e)) => Ok((e.rest(), v.resolve(input))),
        Err(h) => Err(failure(h)),
    }
}

/// Parses `input` as a document: the empty document, or else an object, or
/// else any other value. The value has to be the whole of `input`, apart
/// from whitespace behind it.
///
/// Returns the value that the grammar's rule `document` yields, or the
/// failure that reports where that rule halts.
pub fn parse<'a>(input: &'a str) -> (r: Result<HoconValue<'a>, HoconError>)
    ensures
        match grammar::document(input@) {
            Ok((v, _)) => r matches Ok(got) && got@ == v,
            Err(h) => r matches Err(e) && e.message() == diagnostic(input@, h),
        },
{
    match rules::document(input) {
        Ok((v, _)) => Ok(v.resolve(input)),
        Err(h) => Err(failure(h)),
    }
}

/// The rule `empty_content` at the start of `input`.
pub fn empty_content<'a>(input: &'a str) -> (r: Result<(&'a str, HoconValue<'a>), HoconError>)
    ensures
        answers_value(input@, r, grammar::empty_content(input@, 0)),
{
    finish_value(input, rules::empty_content(Cursor::start(input)))
}

/// The rule `null` at the start of `input`.
pub fn null<'a>(input: &'a str) -> (r: Result<(&'a str, HoconValue<'a>), HoconError>)
    ensures
        answers_value(input@, r, grammar::null(input@, 0)),
{
    finish_value(input, scan::null(Cursor::start(input)))
}

/// The rule `boolean` at the start of `input`.
pub fn boolean<'a>(input: &'a str) -> (r: Result<(&'a str, HoconValue<'a>), HoconError>)
    ensures
        answers_value(input@, r, grammar::boolean(input@, 0)),
{
    finish_value(input, scan::boolean(Cursor::start(input)))
}

/// Takes the whitespace at the start of `input`. Never fails.
pub fn whitespace<'a>(input: &'a str) -> (r: Result<(&'a str, ()), HoconError>)
    ensures
        r matches Ok((rest, _)) && rest@ == input@.skip(grammar::whitespace_end(input@, 0)),
{
    Ok((scan::skip_whitespace(Cursor::start(input)).rest(), ()))
}

/// The rule `string` at the start of `input`: the characters of an unquoted
/// or of a quoted string.
pub fn string<'a>(input: &'a str) -> (r: Result<(&'a str, &'a str), HoconError>)
    ensures
        match grammar::string(input@, 0) {
            Ok((t, j)) => r matches Ok((rest, got)) && got@ == grammar::content(t) && rest@
                == input@.skip(j),
            Err(h) => r matches Err(e) && e.message() == diagnostic(input@, h),
        },
{
    match scan::string(Cursor::start(input)) {
        Ok((t, e)) => Ok((e.rest(), t.content().slice(input))),
        Err(h) => Err(failure(h)),
    }
}

/// The rule `number` at the start of `input`.
pub fn number<'a>(input: &'a str) -> (r: Result<(&'a str, HoconValue<'a>), HoconError>)
    ensures
        answers_value(input@, r, grammar::number(input@, 0)),
{
    finish_value(input, scan::number(Cursor::start(input)))
}

/// The rule `inclusion` at the start of `input`.
pub fn inclusion<'a>(input: &'a str) -> (r: Result<(&'a str, HoconInclusion<'a>), HoconError>)
    ensures
        match grammar::inclusion(input@, 0) {
            Ok((v, j)) => r matches Ok((rest, got)) && got@ == v && rest@ == input@.skip(j),
            Err(h) => r matches Err(e) && e.message() == diagnostic(input@, h),
        },
{
    match scan::inclusion(Cursor::start(input)) {
        Ok((v, e)) => Ok((e.rest(), v.resolve(input))),
        Err(h) => Err(failure(h)),
    }
}

/// The rule `value` at the start of `input`.
pub fn parse_value<'a>(input: &'a str) -> (r: Result<(&'a str, HoconValue<'a>), HoconError>)
    ensures
        answers_value(input@, r, grammar::value(input@, 0)),
{
    finish_value(input, rules::value(Cursor::start(input)))
}

/// Takes what follows an element at the start of `input`: whitespace and at
/// most one comma. Never fails.
pub fn next_element_whitespace<'a>(input: &'a str) -> (r: Result<(&'a str, ()), HoconError>)
    ensures
        r matches Ok((rest, _)) && rest@ == input@.skip(grammar::separator_end(input@, 0)),
{
    Ok((scan::skip_separator(Cursor::start(input)).rest(), ()))
}

/// The rule `key_value` at the start of `input`: the key and the value.
pub fn key_value<'a>(input: &'a str) -> (r: Result<
    (&'a str, (&'a str, HoconValue<'a>)),
    HoconError,
>)
    ensures
        match grammar::key_value(input@, 0) {
            Ok((f, j)) => r matches Ok((rest, (key, v))) && f == FieldView::KeyValue(key@, v@)
                && rest@ == input@.skip(j),
            Err(h) => r matches Err(e) && e.message() == diagnostic(input@, h),
        },
{
    match rules::key_and_value(Cursor::start(input)) {
        Ok(((key, v), e)) => Ok((e.rest(), (key.slice(input), v.resolve(input)))),
        Err(h) => Err(failure(h)),
    }
}

/// The rule `field` at the start of `input`.
pub fn object_field<'a>(input: &'a str) -> (r: Result<(&'a str, HoconField<'a>), HoconError>)
    ensures
        match grammar::field(input@, 0) {
            Ok((f, j)) => r matches Ok((rest, got)) && got@ == f && rest@ == input@.skip(j),
            Err(h) => r matches Err(e) && e.message() == diagnostic(input@, h),
        },
{
    match rules::field(Cursor::start(input)) {
        Ok((f, e)) => Ok((e.rest(), f.resolve(input))),
        Err(h) => Err(failure(h)),
    }
}

/// The rule `array` at the start of `input`.
pub fn array<'a>(input: &'a str) -> (r: Result<(&'a str, HoconValue<'a>), HoconError>)
    ensures
        answers_value(input@, r, grammar::array(input@, 0)),
{
    finish_value(input, rules::array(Cursor::start(input)))
}

/// The rule `object` at the start of `input`.
pub fn parse_object<'a>(input: &'a str) -> (r: Result<(&'a str, HoconValue<'a>), HoconError>)
    ensures
        answers_value(input@, r, grammar::object(input@, 0)),
{
    finish_value(input, rules::object(Cursor::start(input)))
}

} // verus!
