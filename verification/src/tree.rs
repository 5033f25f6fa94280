//! A value tree whose strings are spans of a text instead of borrowed
//! slices. Such a tree can be stored beside the text it was parsed from; a
//! tree of borrowed slices is made from the two whenever one is read.

use crate::text::Span;
use crate::value::{
    field_views, value_views, FieldView, HoconField, HoconInclusion, HoconString, HoconValue,
    InclusionView, StringView, ValueView,
};
use vstd::prelude::*;

verus! {

/// An inclusion whose resource name is a span.
#[derive(Clone, Copy, Debug, PartialEq)]
pub enum SpanInclusion {
    File(Span),
    Url(Span),
    Classpath(Span),
}

/// A string that is a span, with the way it was written.
#[derive(Clone, Copy, Debug, PartialEq)]
pub enum SpanString {
    Quoted(Span),
    Unquoted(Span),
}

/// A field whose key is a span.
#[derive(Debug, PartialEq)]
pub enum SpanField {
    Include(SpanInclusion),
    KeyValue(Span, SpanValue),
}

/// A value whose strings are spans.
#[derive(Debug, PartialEq)]
pub enum SpanValue {
    HoconString(SpanString),
    HoconNumber(u64),
    HoconObject(Vec<SpanField>),
    HoconArray(Vec<SpanValue>),
    HoconBoolean(bool),
    HoconNull,
    HoconInclude(SpanInclusion),
}

impl SpanInclusion {
    pub open spec fn span(&self) -> Span {
        match self {
            SpanInclusion::File(p) => *p,
            SpanInclusion::Url(p) => *p,
            SpanInclusion::Classpath(p) => *p,
        }
    }

    /// The span fits the text `s`.
    pub open spec fn wf(&self, s: Seq<char>) -> bool {
        self.span().wf(s)
    }

    /// The inclusion that this one denotes in the text `s`.
    pub open spec fn view(&self, s: Seq<char>) -> InclusionView {
        match self {
            SpanInclusion::File(p) => InclusionView::File(p.chars(s)),
            SpanInclusion::Url(p) => InclusionView::Url(p.chars(s)),
            SpanInclusion::Classpath(p) => InclusionView::Classpath(p.chars(s)),
        }
    }

    /// Borrows the resource name from `text`.
    pub fn resolve<'a>(&self, text: &'a str) -> (r: HoconInclusion<'a>)
        requires
            self.wf(text@),
        ensures
            r@ == self.view(text@),
    {
        match self {
            SpanInclusion::File(p) => HoconInclusion::File(p.slice(text)),
            SpanInclusion::Url(p) => HoconInclusion::Url(p.slice(text)),
            SpanInclusion::Classpath(p) => HoconInclusion::Classpath(p.slice(text)),
        }
    }
}

impl SpanString {
    pub open spec fn span(&self) -> Span {
        match self {
            SpanString::Quoted(t) => *t,
            SpanString::Unquoted(t) => *t,
        }
    }

    /// The span fits the text `s`.
    pub open spec fn wf(&self, s: Seq<char>) -> bool {
        self.span().wf(s)
    }

    /// The string that this one denotes in the text `s`.
    pub open spec fn view(&self, s: Seq<char>) -> StringView {
        match self {
            SpanString::Quoted(t) => StringView::Quoted(t.chars(s)),
            SpanString::Unquoted(t) => StringView::Unquoted(t.chars(s)),
        }
    }

    /// Borrows the string from `text`.
    pub fn resolve<'a>(&self, text: &'a str) -> (r: HoconString<'a>)
        requires
            self.wf(text@),
        ensures
            r@ == self.view(text@),
    {
        match self {
            SpanString::Quoted(t) => HoconString::Quoted(t.slice(text)),
            SpanString::Unquoted(t) => HoconString::Unquoted(t.slice(text)),
        }
    }

    /// The span of the string's characters.
    pub fn content(&self) -> (r: Span)
        ensures
            r == self.span(),
    {
        match self {
            SpanString::Quoted(t) => *t,
            SpanString::Unquoted(t) => *t,
        }
    }
}

impl SpanField {
    /// Every span of the field fits the text `s`.
    pub open spec fn wf(&self, s: Seq<char>) -> bool
        decreases self,
    {
        match self {
            SpanField::Include(inc) => inc.wf(s),
            SpanField::KeyValue(k, v) => k.wf(s) && v.wf(s),
        }
    }

    /// The field that this one denotes in the text `s`.
    pub open spec fn view(&self, s: Seq<char>) -> FieldView
        decreases self,
    {
        match self {
            SpanField::Include(inc) => FieldView::Include(inc.view(s)),
            SpanField::KeyValue(k, v) => FieldView::KeyValue(k.chars(s), v.view(s)),
        }
    }

    /// Borrows the field's strings from `text`.
    pub fn resolve<'a>(&self, text: &'a str) -> (r: HoconField<'a>)
        requires
            self.wf(text@),
        ensures
            r@ == self.view(text@),
        decreases self,
    {
        match self {
            SpanField::Include(inc) => HoconField::Include(inc.resolve(text)),
            SpanField::KeyValue(k, v) => HoconField::KeyValue(k.slice(text), v.resolve(text)),
        }
    }
}

/// The fields that `fields` denote in the text `s`, in their order.
pub open spec fn fields_view(fields: Seq<SpanField>, s: Seq<char>) -> Seq<FieldView>
    decreases fields,
{
    Seq::new(
        fields.len(),
        |i: int|
            if 0 <= i < fields.len() {
                fields[i].view(s)
            } else {
                arbitrary()
            },
    )
}

/// The values that `items` denote in the text `s`, in their order.
pub open spec fn items_view(items: Seq<SpanValue>, s: Seq<char>) -> Seq<ValueView>
    decreases items,
{
    Seq::new(
        items.len(),
        |i: int|
            if 0 <= i < items.len() {
                items[i].view(s)
            } else {
                arbitrary()
            },
    )
}

impl SpanValue {
    /// Every span of the tree fits the text `s`.
    pub open spec fn wf(&self, s: Seq<char>) -> bool
        decreases self,
    {
        match self {
            SpanValue::HoconString(t) => t.wf(s),
            SpanValue::HoconObject(fields) => forall|i: int|
                0 <= i < fields.len() ==> (#[trigger] fields[i]).wf(s),
            SpanValue::HoconArray(items) => forall|i: int|
                0 <= i < items.len() ==> (#[trigger] items[i]).wf(s),
            SpanValue::HoconInclude(inc) => inc.wf(s),
            _ => true,
        }
    }

    /// The value that this tree denotes in the text `s`.
    pub open spec fn view(&self, s: Seq<char>) -> ValueView
        decreases self,
    {
        match self {
            SpanValue::HoconString(t) => ValueView::HoconString(t.view(s)),
            SpanValue::HoconNumber(n) => ValueView::HoconNumber(*n),
            SpanValue::HoconObject(fields) => ValueView::HoconObject(fields_view(fields@, s)),
            SpanValue::HoconArray(items) => ValueView::HoconArray(items_view(items@, s)),
            SpanValue::HoconBoolean(b) => ValueView::HoconBoolean(*b),
            SpanValue::HoconNull => ValueView::HoconNull,
            SpanValue::HoconInclude(inc) => ValueView::HoconInclude(inc.view(s)),
        }
    }

    /// Builds the tree of borrowed slices that this tree denotes in `text`.
    pub fn resolve<'a>(&self, text: &'a str) -> (r: HoconValue<'a>)
        requires
            self.wf(text@),
        ensures
            r@ == self.view(text@),
        decreases self,
    {
        match self {
            SpanValue::HoconString(t) => HoconValue::HoconString(t.resolve(text)),
            SpanValue::HoconNumber(n) => HoconValue::HoconNumber(*n),
            SpanValue::HoconObject(fields) => {
                let mut out: Vec<HoconField<'a>> = Vec::new();
                let mut i: usize = 0;
                while i < fields.len()
                    invariant
                        i <= fields.len(),
                        out.len() == i,
                        forall|k: int| 0 <= k < fields.len() ==> (#[trigger] fields[k]).wf(text@),
                        forall|k: int|
                            0 <= k < fields.len() ==> decreases_to!(self => #[trigger] fields[k]),
                        forall|k: int| 0 <= k < i ==> out[k]@ == (#[trigger] fields[k]).view(text@),
                    decreases fields.len() - i,
                {
                    let f = fields[i].resolve(text);
                    out.push(f);
                    i += 1;
                }
                let r = HoconValue::HoconObject(out);
                assert(r@ == self.view(text@)) by {
                    let got = field_views(out@);
                    let want = fields_view(fields@, text@);
                    assert forall|k: int| 0 <= k < got.len() implies got[k] == want[k] by {
                        assert(out[k]@ == fields[k].view(text@));
                    }
                    assert(got =~= want);
                }
                r
            },
            SpanValue::HoconArray(items) => {
                let mut out: Vec<HoconValue<'a>> = Vec::new();
                let mut i: usize = 0;
                while i < items.len()
                    invariant
                        i <= items.len(),
                        out.len() == i,
                        forall|k: int| 0 <= k < items.len() ==> (#[trigger] items[k]).wf(text@),
                        forall|k: int|
                            0 <= k < items.len() ==> decreases_to!(self => #[trigger] items[k]),
                        forall|k: int| 0 <= k < i ==> out[k]@ == (#[trigger] items[k]).view(text@),
                    decreases items.len() - i,
                {
                    let v = items[i].resolve(text);
                    out.push(v);
                    i += 1;
                }
                let r = HoconValue::HoconArray(out);
                assert(r@ == self.view(text@)) by {
                    let got = value_views(out@);
                    let want = items_view(items@, text@);
                    assert forall|k: int| 0 <= k < got.len() implies got[k] == want[k] by {
                        assert(out[k]@ == items[k].view(text@));
                    }
                    assert(got =~= want);
                }
                r
            },
            SpanValue::HoconBoolean(b) => HoconValue::HoconBoolean(*b),
            SpanValue::HoconNull => HoconValue::HoconNull,
            SpanValue::HoconInclude(inc) => HoconValue::HoconInclude(inc.resolve(text)),
        }
    }
}

} // verus!
