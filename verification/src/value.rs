//! The value tree of a document, and the mathematical trees that contracts
//! speak of.

use vstd::prelude::*;

verus! {

/// What an inclusion directive names.
pub enum InclusionView {
    File(Seq<char>),
    Url(Seq<char>),
    Classpath(Seq<char>),
}

/// A string leaf, with the way it was written.
pub enum StringView {
    Quoted(Seq<char>),
    Unquoted(Seq<char>),
}

/// One entry of an object.
pub enum FieldView {
    Include(InclusionView),
    KeyValue(Seq<char>, ValueView),
}

/// A value tree over character sequences.
pub enum ValueView {
    HoconString(StringView),
    HoconNumber(u64),
    HoconObject(Seq<FieldView>),
    HoconArray(Seq<ValueView>),
    HoconBoolean(bool),
    HoconNull,
    HoconInclude(InclusionView),
}

/// A reference to an outside resource; nothing here resolves or fetches it.
#[derive(Clone, Copy, Debug, PartialEq)]
pub enum HoconInclusion<'a> {
    File(&'a str),
    Url(&'a str),
    Classpath(&'a str),
}

/// A string of the text, quoted or unquoted.
#[derive(Clone, Copy, Debug, PartialEq)]
pub enum HoconString<'a> {
    Quoted(&'a str),
    Unquoted(&'a str),
}

/// One entry of an object: an inclusion directive or a key with its value.
#[derive(Debug, PartialEq)]
pub enum HoconField<'a> {
    Include(HoconInclusion<'a>),
    KeyValue(&'a str, HoconValue<'a>),
}

/// A parsed value. Strings borrow from the text that was parsed. A number is
/// held as the bit pattern of its IEEE 754 binary64 value. An object keeps
/// its fields in the order of the text, duplicates included.
#[derive(Debug, PartialEq)]
pub enum HoconValue<'a> {
    HoconString(HoconString<'a>),
    HoconNumber(u64),
    HoconObject(Vec<HoconField<'a>>),
    HoconArray(Vec<HoconValue<'a>>),
    HoconBoolean(bool),
    HoconNull,
    HoconInclude(HoconInclusion<'a>),
}

impl<'a> View for HoconInclusion<'a> {
    type V = InclusionView;

    open spec fn view(&self) -> InclusionView {
        match self {
            HoconInclusion::File(p) => InclusionView::File(p@),
            HoconInclusion::Url(p) => InclusionView::Url(p@),
            HoconInclusion::Classpath(p) => InclusionView::Classpath(p@),
        }
    }
}

impl<'a> View for HoconString<'a> {
    type V = StringView;

    open spec fn view(&self) -> StringView {
        match self {
            HoconString::Quoted(s) => StringView::Quoted(s@),
            HoconString::Unquoted(s) => StringView::Unquoted(s@),
        }
    }
}

impl<'a> View for HoconField<'a> {
    type V = FieldView;

    open spec fn view(&self) -> FieldView
        decreases self,
    {
        match self {
            HoconField::Include(inc) => FieldView::Include(inc@),
            HoconField::KeyValue(k, v) => FieldView::KeyValue(k@, v.view()),
        }
    }
}

/// The views of `fields`, in their order.
pub open spec fn field_views(fields: Seq<HoconField>) -> Seq<FieldView>
    decreases fields,
{
    Seq::new(
        fields.len(),
        |i: int|
            if 0 <= i < fields.len() {
                fields[i].view()
            } else {
                arbitrary()
            },
    )
}

/// The views of `items`, in their order.
pub open spec fn value_views(items: Seq<HoconValue>) -> Seq<ValueView>
    decreases items,
{
    Seq::new(
        items.len(),
        |i: int|
            if 0 <= i < items.len() {
                items[i].view()
            } else {
                arbitrary()
            },
    )
}

impl<'a> View for HoconValue<'a> {
    type V = ValueView;

    open spec fn view(&self) -> ValueView
        decreases self,
    {
        match self {
            HoconValue::HoconString(s) => ValueView::HoconString(s@),
            HoconValue::HoconNumber(n) => ValueView::HoconNumber(*n),
            HoconValue::HoconObject(fields) => ValueView::HoconObject(field_views(fields@)),
            HoconValue::HoconArray(items) => ValueView::HoconArray(value_views(items@)),
            HoconValue::HoconBoolean(b) => ValueView::HoconBoolean(*b),
            HoconValue::HoconNull => ValueView::HoconNull,
            HoconValue::HoconInclude(inc) => ValueView::HoconInclude(inc@),
        }
    }
}

impl<'a> HoconField<'a> {
    /// A copy of the field that borrows from the same text.
    pub fn duplicate(&self) -> (r: HoconField<'a>)
        ensures
            r@ == self@,
        decreases self,
    {
        match self {
            HoconField::Include(inc) => HoconField::Include(*inc),
            HoconField::KeyValue(k, v) => HoconField::KeyValue(*k, v.duplicate()),
        }
    }
}

impl<'a> HoconValue<'a> {
    /// A copy of the tree that borrows from the same text.
    pub fn duplicate(&self) -> (r: HoconValue<'a>)
        ensures
            r@ == self@,
        decreases self,
    {
        match self {
            HoconValue::HoconString(s) => HoconValue::HoconString(*s),
            HoconValue::HoconNumber(n) => HoconValue::HoconNumber(*n),
            HoconValue::HoconObject(fields) => {
                let mut out: Vec<HoconField<'a>> = Vec::new();
                let mut i: usize = 0;
                while i < fields.len()
                    invariant
                        i <= fields.len(),
                        out.len() == i,
                        forall|k: int|
                            0 <= k < fields.len() ==> decreases_to!(self => #[trigger] fields[k]),
                        forall|k: int| 0 <= k < i ==> out[k]@ == (#[trigger] fields[k])@,
                    decreases fields.len() - i,
                {
                    out.push(fields[i].duplicate());
                    i += 1;
                }
                proof {
                    assert(field_views(out@) =~= field_views(fields@));
                }
                HoconValue::HoconObject(out)
            },
            HoconValue::HoconArray(items) => {
                let mut out: Vec<HoconValue<'a>> = Vec::new();
                let mut i: usize = 0;
                while i < items.len()
                    invariant
                        i <= items.len(),
                        out.len() == i,
                        forall|k: int|
                            0 <= k < items.len() ==> decreases_to!(self => #[trigger] items[k]),
                        forall|k: int| 0 <= k < i ==> out[k]@ == (#[trigger] items[k])@,
                    decreases items.len() - i,
                {
                    out.push(items[i].duplicate());
                    i += 1;
                }
                proof {
                    assert(value_views(out@) =~= value_views(items@));
                }
                HoconValue::HoconArray(out)
            },
            HoconValue::HoconBoolean(b) => HoconValue::HoconBoolean(*b),
            HoconValue::HoconNull => HoconValue::HoconNull,
            HoconValue::HoconInclude(inc) => HoconValue::HoconInclude(*inc),
        }
    }
}

impl<'a> Clone for HoconField<'a> {
    fn clone(&self) -> (r: Self)
        ensures
            r@ == self@,
    {
        self.duplicate()
    }
}

impl<'a> Clone for HoconValue<'a> {
    fn clone(&self) -> (r: Self)
        ensures
            r@ == self@,
    {
        self.duplicate()
    }
}

} // verus!
