//! Reading a value tree as a record, one step at a time: which string, key
//! or value a reader is handed at each step, and when it is refused.

use crate::error::{diagnostic, HoconError};
use crate::grammar;
use crate::parser::parse;
use crate::value::{field_views, FieldView, HoconField, HoconString, HoconValue, ValueView};
use vstd::prelude::*;

verus! {

/// A value that is being read.
pub struct HoconDeserializer<'de> {
    input: HoconValue<'de>,
}

impl<'de> View for HoconDeserializer<'de> {
    type V = ValueView;

    closed spec fn view(&self) -> ValueView {
        self.input@
    }
}

/// How the views of a sequence of fields relate to the fields.
proof fn lemma_first_field(fields: Seq<HoconField>)
    ensures
        field_views(fields).len() == fields.len(),
        fields.len() > 0 ==> field_views(fields)[0] == fields[0]@,
        fields.len() > 0 ==> (fields[0] matches HoconField::KeyValue(k, v) ==> fields[0]@
            == FieldView::KeyValue(k@, v@)),
        fields.len() > 0 ==> (fields[0] is Include ==> fields[0]@ is Include),
{
}

/// The failure with the message `msg`.
fn refusal(msg: &str) -> (e: HoconError)
    ensures
        e.message() == msg@,
{
    HoconError::ParseError { msg: msg.to_owned() }
}

impl<'de> HoconDeserializer<'de> {
    /// A reader of `input`.
    pub fn new(input: HoconValue<'de>) -> (r: Self)
        ensures
            r@ == input@,
    {
        HoconDeserializer { input }
    }

    /// A reader of the document that `input` parses to; fails as parsing
    /// `input` fails.
    pub fn from_str(input: &'de str) -> (r: Result<Self, HoconError>)
        ensures
            match grammar::document(input@) {
                Ok((v, _)) => r matches Ok(reader) && reader@ == v,
                Err(h) => r matches Err(e) && e.message() == diagnostic(input@, h),
            },
    {
        match parse(input) {
            Ok(input) => Ok(HoconDeserializer { input }),
            Err(e) => Err(e),
        }
    }

    /// The value that is being read.
    pub fn value(&self) -> (r: &HoconValue<'de>)
        ensures
            r@ == self@,
    {
        &self.input
    }

    /// Reads a string: the characters of the value if it is a string, and a
    /// refusal if it is not.
    pub fn string(&self) -> (r: Result<&'de str, HoconError>)
        ensures
            match self@ {
                ValueView::HoconString(t) => r matches Ok(s) && s@ == grammar::content(t),
                _ => r matches Err(e) && e.message() == "Expected string type"@,
            },
    {
        match &self.input {
            HoconValue::HoconString(HoconString::Quoted(s)) => Ok(*s),
            HoconValue::HoconString(HoconString::Unquoted(s)) => Ok(*s),
            _ => Err(refusal("Expected string type")),
        }
    }

    /// Reads a record: agrees if the value is an object, and refuses if it
    /// is not.
    pub fn map(&self) -> (r: Result<(), HoconError>)
        ensures
            match self@ {
                ValueView::HoconObject(_) => r is Ok,
                _ => r matches Err(e) && e.message() == "Expected object type"@,
            },
    {
        match &self.input {
            HoconValue::HoconObject(_) => Ok(()),
            _ => Err(refusal("Expected object type")),
        }
    }

    /// Reads the name of a record's next entry: the key of the first field
    /// of the object. Refuses if the value is no object, if the object has
    /// no field, or if its first field is an inclusion.
    pub fn identifier(&self) -> (r: Result<&'de str, HoconError>)
        ensures
            match self@ {
                ValueView::HoconObject(fields) => if fields.len() > 0 && fields[0] is KeyValue {
                    r matches Ok(key) && key@ == fields[0]->KeyValue_0
                } else {
                    r matches Err(e) && e.message() == "Expected non-empty object"@
                },
                _ => r matches Err(e) && e.message() == "Expected object type"@,
            },
    {
        match &self.input {
            HoconValue::HoconObject(fields) => {
                proof {
                    lemma_first_field(fields@);
                }
                if fields.len() > 0 {
                    match &fields[0] {
                        HoconField::KeyValue(key, _) => {
                            return Ok(*key);
                        },
                        _ => {},
                    }
                }
                Err(refusal("Expected non-empty object"))
            },
            _ => Err(refusal("Expected object type")),
        }
    }
}

/// The walk over the fields of an object that is being read as a record:
/// whether the walk has not started yet. The fields still to be read are the
/// fields of the reader's object; the first of them is the one being read.
pub struct HoconObjectIter {
    first: bool,
}

impl HoconObjectIter {
    /// The walk has not started yet.
    pub closed spec fn first(&self) -> bool {
        self.first
    }

    /// Whether the walk has not started yet.
    pub fn is_first(&self) -> (r: bool)
        ensures
            r == self.first(),
    {
        self.first
    }

    /// A walk that has not started yet.
    pub fn new() -> (r: Self)
        ensures
            r.first(),
    {
        HoconObjectIter { first: true }
    }

    /// Moves to the next field and tells whether there is one. The first
    /// move starts the walk and leaves the object as it is; every later move
    /// drops the field that was being read. Refuses if the value is no
    /// object.
    pub fn next_key<'de>(&mut self, de: &mut HoconDeserializer<'de>) -> (r: Result<
        bool,
        HoconError,
    >)
        requires
            old(de)@ matches ValueView::HoconObject(fields) ==> old(self).first() || fields.len()
                > 0,
        ensures
            match old(de)@ {
                ValueView::HoconObject(fields) => {
                    let rest = if old(self).first() {
                        fields
                    } else {
                        fields.drop_first()
                    };
                    &&& r matches Ok(more) && more == (rest.len() > 0)
                    &&& final(de)@ == ValueView::HoconObject(rest)
                    &&& !final(self).first()
                },
                _ => {
                    &&& r matches Err(e) && e.message() == "Expected object type"@
                    &&& final(de)@ == old(de)@
                    &&& final(self).first() == old(self).first()
                },
            },
    {
        match &mut de.input {
            HoconValue::HoconObject(elements) => {
                let ghost before = elements@;
                proof {
                    lemma_first_field(before);
                }
                if !self.first {
                    elements.remove(0);
                    proof {
                        assert(elements@ =~= before.drop_first());
                        assert(field_views(elements@) =~= field_views(before).drop_first());
                    }
                } else {
                    self.first = false;
                }
                Ok(elements.len() > 0)
            },
            _ => Err(refusal("Expected object type")),
        }
    }

    /// A reader of the value of the field that is being read. Refuses if
    /// the value is no object, if the object has no field, or if its first
    /// field is an inclusion.
    pub fn next_value<'de>(&self, de: &HoconDeserializer<'de>) -> (r: Result<
        HoconDeserializer<'de>,
        HoconError,
    >)
        ensures
            match de@ {
                ValueView::HoconObject(fields) => if fields.len() > 0 && fields[0] is KeyValue {
                    r matches Ok(reader) && reader@ == fields[0]->KeyValue_1
                } else {
                    r matches Err(e) && e.message() == "Expected non-empty map"@
                },
                _ => r matches Err(e) && e.message() == "Expcected object type"@,
            },
    {
        match &de.input {
            HoconValue::HoconObject(fields) => {
                proof {
                    lemma_first_field(fields@);
                }
                if fields.len() > 0 {
                    match &fields[0] {
                        HoconField::KeyValue(_, value) => {
                            return Ok(HoconDeserializer { input: value.duplicate() });
                        },
                        _ => {},
                    }
                }
                Err(refusal("Expected non-empty map"))
            },
            _ => Err(refusal("Expcected object type")),
        }
    }
}

} // verus!
