//! Facts about the grammar and the workspace that hold of every text and of
//! every registry.

use crate::chars::is_whitespace;
use crate::grammar;
use crate::grammar::{Many, Outcome};
use crate::value::{FieldView, ValueView};
use crate::workspace::{closed, looked_up, opened, Registry};
use vstd::prelude::*;

verus! {

/// Every character of `s` from position `i` on is whitespace.
pub open spec fn blank_from(s: Seq<char>, i: int) -> bool {
    forall|k: int| i <= k < s.len() ==> is_whitespace(#[trigger] s[k])
}

/// Whitespace that reaches to the end of a text is stepped over as a whole.
pub proof fn whitespace_runs_to_the_end(s: Seq<char>, i: int)
    requires
        0 <= i <= s.len(),
        blank_from(s, i),
    ensures
        grammar::whitespace_end(s, i) == s.len(),
    decreases s.len() - i,
{
    if i < s.len() {
        assert(is_whitespace(s[i]));
        whitespace_runs_to_the_end(s, i + 1);
    }
}

/// A text that is empty or holds nothing but whitespace parses to an object
/// without fields.
pub proof fn blank_text_is_the_empty_object(s: Seq<char>)
    requires
        blank_from(s, 0),
    ensures
        grammar::document(s) == Ok::<(ValueView, int), grammar::Halt>(
            (ValueView::HoconObject(Seq::<FieldView>::empty()), s.len() as int),
        ),
{
    whitespace_runs_to_the_end(s, 0);
}

/// Opening a text under an identifier a second time changes nothing: the
/// registry is the same, and so is the tree that is looked up.
pub proof fn reopening_changes_nothing(w: Registry, id: Seq<char>, text: Seq<char>)
    ensures
        opened(opened(w, id, text), id, text) == opened(w, id, text),
        looked_up(opened(opened(w, id, text), id, text), id) == looked_up(
            opened(w, id, text),
            id,
        ),
{
    assert(opened(opened(w, id, text), id, text) =~= opened(w, id, text));
}

/// After a text that parses is opened under an identifier, looking the
/// identifier up gives the tree that parsing the text gives.
pub proof fn lookup_after_open_is_the_parse(w: Registry, id: Seq<char>, text: Seq<char>)
    requires
        grammar::document(text) is Ok,
    ensures
        looked_up(opened(w, id, text), id) == Some(grammar::document(text)->Ok_0.0),
{
}

/// After an identifier is closed, looking it up gives nothing.
pub proof fn lookup_after_close_is_nothing(w: Registry, id: Seq<char>)
    ensures
        looked_up(closed(w, id), id) is None,
{
}

/// Opening a text that does not parse leaves the registry as it was; what
/// was registered under the identifier before is still looked up.
pub proof fn failed_open_changes_nothing(w: Registry, id: Seq<char>, text: Seq<char>)
    requires
        grammar::document(text) is Err,
    ensures
        opened(w, id, text) == w,
        looked_up(opened(w, id, text), id) == looked_up(w, id),
{
}

/// Opening or closing one identifier does not touch what is registered
/// under another.
pub proof fn other_identifiers_are_untouched(
    w: Registry,
    id: Seq<char>,
    other: Seq<char>,
    text: Seq<char>,
)
    requires
        id != other,
    ensures
        looked_up(opened(w, id, text), other) == looked_up(w, other),
        looked_up(closed(w, id), other) == looked_up(w, other),
{
}

/// The outcome `r` of a rule at position `i` lies inside the text: what the
/// rule took ends behind `i` and not behind the end of the text, or the rule
/// halts between `i` and the end of the text.
pub open spec fn inside<T>(s: Seq<char>, i: int, r: Outcome<T>) -> bool {
    match r {
        Ok((_, j)) => i < j <= s.len(),
        Err(h) => i <= h.at <= s.len(),
    }
}

/// The outcome `m` of a repetition at position `i` lies inside the text: it
/// ends between `i` and the end of the text, behind `i` if it gathered
/// anything, and the halt that ended it lies between its end and the end of
/// the text.
pub open spec fn inside_many<T>(s: Seq<char>, i: int, m: Many<T>) -> bool {
    &&& i <= m.end <= m.halt.at <= s.len()
    &&& m.items.len() > 0 ==> i < m.end
}

/// The leaf rules stay inside the text.
pub proof fn leaves_stay_inside(s: Seq<char>, i: int)
    requires
        0 <= i <= s.len(),
    ensures
        inside(s, i, grammar::null(s, i)),
        inside(s, i, grammar::boolean(s, i)),
        inside(s, i, grammar::number(s, i)),
        inside(s, i, grammar::quoted(s, i)),
        inside(s, i, grammar::unquoted(s, i)),
        inside(s, i, grammar::string(s, i)),
        inside(s, i, grammar::string_value(s, i)),
        inside(s, i, grammar::inclusion(s, i)),
        inside(s, i, grammar::scalar(s, i)),
        i <= grammar::whitespace_end(s, i) <= s.len(),
        i <= grammar::separator_end(s, i) <= s.len(),
{
    reveal_strlit("null");
    reveal_strlit("true");
    reveal_strlit("false");
    reveal_strlit("include");
    grammar::lemma_whitespace_end(s, i);
    grammar::lemma_quoted_end(s, i + 1);
    grammar::lemma_unquoted_end(s, i);
    if grammar::starts_with(s, i, "include"@) {
        let j = grammar::whitespace_end(s, i + 7);
        grammar::lemma_whitespace_end(s, i + 7);
        resource_stays_inside(s, j, "url"@);
        resource_stays_inside(s, j, "file"@);
        resource_stays_inside(s, j, "classpath"@);
    }
}

/// The rule `resource` stays inside the text.
pub proof fn resource_stays_inside(s: Seq<char>, i: int, kind: Seq<char>)
    requires
        0 <= i <= s.len(),
    ensures
        inside(s, i, grammar::resource(s, i, kind)),
{
    grammar::lemma_quoted_end(s, i + kind.len() + 2);
}

/// The rule `value` stays inside the text.
pub proof fn value_stays_inside(s: Seq<char>, i: int)
    requires
        0 <= i <= s.len(),
    ensures
        inside(s, i, grammar::value(s, i)),
    decreases s.len() - i, 7int,
{
    leaves_stay_inside(s, i);
    array_stays_inside(s, i);
    object_stays_inside(s, i);
}

/// The rule `array` stays inside the text.
pub proof fn array_stays_inside(s: Seq<char>, i: int)
    requires
        0 <= i <= s.len(),
    ensures
        inside(s, i, grammar::array(s, i)),
    decreases s.len() - i, 6int,
{
    if grammar::at(s, i, '[') {
        elements_stay_inside(s, i + 1);
    }
}

/// The rule `elements` stays inside the text, and every element that it
/// gathers took at least one character.
pub proof fn elements_stay_inside(s: Seq<char>, i: int)
    requires
        0 <= i <= s.len(),
    ensures
        inside_many(s, i, grammar::elements(s, i)),
    decreases s.len() - i, 9int,
{
    element_stays_inside(s, i);
    if let Ok((_, j)) = grammar::element(s, i) {
        elements_stay_inside(s, j);
    }
}

/// The rule `element` stays inside the text.
pub proof fn element_stays_inside(s: Seq<char>, i: int)
    requires
        0 <= i <= s.len(),
    ensures
        inside(s, i, grammar::element(s, i)),
    decreases s.len() - i, 8int,
{
    leaves_stay_inside(s, i);
    let j = grammar::whitespace_end(s, i);
    value_stays_inside(s, j);
    if let Ok((_, k)) = grammar::value(s, j) {
        leaves_stay_inside(s, k);
    }
}

/// The rule `object` stays inside the text, and so do `braced` and
/// `braceless`.
pub proof fn object_stays_inside(s: Seq<char>, i: int)
    requires
        0 <= i <= s.len(),
    ensures
        inside(s, i, grammar::braced(s, i)),
        inside(s, i, grammar::braceless(s, i)),
        inside(s, i, grammar::object(s, i)),
    decreases s.len() - i, 5int,
{
    if grammar::at(s, i, '{') {
        fields_stay_inside(s, i + 1);
    }
    fields_stay_inside(s, i);
}

/// The rule `fields` stays inside the text, and every field that it gathers
/// took at least one character.
pub proof fn fields_stay_inside(s: Seq<char>, i: int)
    requires
        0 <= i <= s.len(),
    ensures
        inside_many(s, i, grammar::fields(s, i)),
    decreases s.len() - i, 4int,
{
    field_stays_inside(s, i);
    if let Ok((_, j)) = grammar::field(s, i) {
        fields_stay_inside(s, j);
    }
}

/// The rule `field` stays inside the text, and so does `key_value`.
pub proof fn field_stays_inside(s: Seq<char>, i: int)
    requires
        0 <= i <= s.len(),
    ensures
        inside(s, i, grammar::key_value(s, i)),
        inside(s, i, grammar::field(s, i)),
    decreases s.len() - i, 3int,
{
    leaves_stay_inside(s, i);
    let key_start = grammar::whitespace_end(s, i);
    leaves_stay_inside(s, key_start);
    if let Ok((_, j)) = grammar::string(s, key_start) {
        leaves_stay_inside(s, j);
        let at_separator = grammar::whitespace_end(s, j);
        if let Ok((_, k)) = grammar::key_separator(s, at_separator) {
            leaves_stay_inside(s, k);
            let start = grammar::whitespace_end(s, k);
            value_stays_inside(s, start);
            if let Ok((_, end)) = grammar::value(s, start) {
                leaves_stay_inside(s, end);
            }
        }
    }
}

/// A repetition with one more value in front of what it gathered.
pub open spec fn preceded<T>(first: T, m: Many<T>) -> Many<T> {
    Many { items: seq![first] + m.items, end: m.end, halt: m.halt }
}

/// A repetition that gathered nothing at position `i`, ended by the halt
/// `h`.
pub open spec fn nothing<T>(i: int, h: grammar::Halt) -> Many<T> {
    Many { items: Seq::empty(), end: i, halt: h }
}

/// The elements of an array from a position on are the first element and the
/// elements behind it, or none where the first element halts: no element
/// that yields is left out.
pub proof fn elements_are_all_gathered(s: Seq<char>, i: int)
    requires
        0 <= i <= s.len(),
    ensures
        grammar::elements(s, i) == (match grammar::element(s, i) {
            Ok((v, j)) => preceded(v, grammar::elements(s, j)),
            Err(h) => nothing(i, h),
        }),
{
    element_stays_inside(s, i);
}

/// The fields of an object from a position on are the first field and the
/// fields behind it, or none where the first field halts: no field that
/// yields is left out.
pub proof fn fields_are_all_gathered(s: Seq<char>, i: int)
    requires
        0 <= i <= s.len(),
    ensures
        grammar::fields(s, i) == (match grammar::field(s, i) {
            Ok((f, j)) => preceded(f, grammar::fields(s, j)),
            Err(h) => nothing(i, h),
        }),
{
    field_stays_inside(s, i);
}

/// A document that parses is the whole of its text, and a document that
/// does not parse halts inside its text.
pub proof fn document_is_the_whole_text(s: Seq<char>)
    ensures
        match grammar::document(s) {
            Ok((_, j)) => j == s.len(),
            Err(h) => 0 <= h.at <= s.len(),
        },
{
    leaves_stay_inside(s, 0);
    object_stays_inside(s, 0);
    fields_stay_inside(s, 0);
    value_stays_inside(s, 0);
    if let Ok((_, j)) = grammar::braced(s, 0) {
        leaves_stay_inside(s, j);
    }
    leaves_stay_inside(s, grammar::fields(s, 0).end);
    if let Ok((_, j)) = grammar::value(s, 0) {
        leaves_stay_inside(s, j);
    }
}

} // verus!
