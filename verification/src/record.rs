//! The record visitor: it resolves the declared fields of a record against
//! the attributes of the record's element first, then against its children.
//!
//! Fields are resolved in declared order. An attribute is found by its local
//! name, wherever it stands among the attributes, and answers one field
//! only. Children are taken in document order: a field is answered by the
//! child at the cursor, where that child bears the field's name, and never
//! by a child further on. A field that nothing answers is missing: an
//! optional value is then absent, a sequence is empty, and any other shape
//! fails with a mismatch that names the field and the event found in its
//! place, which is the end tag of the record where the children have run
//! out. Attributes that no field asks for are dropped; children that no
//! field reads fail the record at its end tag, unless the record declares a
//! catch-all, which absorbs what follows the last field.

use vstd::prelude::*;
use crate::de::Deserializer;
use crate::de::fulfils;
use crate::error::Error;
use crate::error::ErrorView;
use crate::error::Expected;
use crate::event::Attribute;
use crate::event::AttributeView;
use crate::event::Event;
use crate::event::attribute_views;
use crate::model::SourceView;
use crate::model;
use crate::scalar::convert_text;
use crate::sequence::finish_items;
use crate::shape::Field;
use crate::shape::Shape;
use crate::value::Value;
use crate::value::ValueView;
use crate::value::lemma_value_views_push;
use crate::value::value_views;

verus! {

/// Where the value of a field is found.
#[derive(Debug, PartialEq, Eq)]
pub enum FieldSource {
    /// In an attribute, which has left the pool: its text.
    Attribute(String),
    /// In the children at the cursor, the first of which bears its name.
    Child,
    /// Nowhere.
    Missing,
}

/// The bookkeeping of one record: the attributes of its element that no
/// field has used yet, and whether it declares a catch-all.
pub struct RecordVisitor {
    pool: Vec<Attribute>,
    catch_all: bool,
}

/// The place of the first attribute of `pool` whose local name is `name`.
pub fn find_attribute(pool: &Vec<Attribute>, name: &String) -> (result: Option<usize>)
    ensures
        match result {
            Some(place) => place < pool.len() && model::find_attribute(
                attribute_views(pool@),
                name@,
                0,
            ) == Some(place as nat),
            None => model::find_attribute(attribute_views(pool@), name@, 0) is None,
        },
{
    let mut at: usize = 0;
    while at < pool.len()
        invariant
            at <= pool.len(),
            model::find_attribute(attribute_views(pool@), name@, at as nat) == model::find_attribute(
                attribute_views(pool@),
                name@,
                0,
            ),
        decreases pool.len() - at,
    {
        if pool[at].name.local_name == *name {
            return Some(at);
        }
        at = at + 1;
    }
    None
}

impl RecordVisitor {
    /// The attributes that no field has used yet, in document order.
    pub closed spec fn pool(&self) -> Seq<AttributeView> {
        attribute_views(self.pool@)
    }

    /// Whether the record declares a catch-all.
    pub closed spec fn has_catch_all(&self) -> bool {
        self.catch_all
    }

    /// The visitor of a record whose element has the attributes
    /// `attributes`.
    pub fn new(attributes: Vec<Attribute>, catch_all: bool) -> (visitor: Self)
        ensures
            visitor.pool() == attribute_views(attributes@),
            visitor.has_catch_all() == catch_all,
    {
        RecordVisitor { pool: attributes, catch_all }
    }

    /// Whether the record declares a catch-all.
    pub fn catch_all(&self) -> (catch_all: bool)
        ensures
            catch_all == self.has_catch_all(),
    {
        self.catch_all
    }

    /// Resolves the field named `name`: the first attribute of that name
    /// answers it and leaves the pool; failing that, the next child does
    /// where it bears the name; failing that, the field is missing. The
    /// cursor is not moved.
    pub fn resolve(&mut self, de: &mut Deserializer, name: &String) -> (result: Result<
        FieldSource,
        Error,
    >)
        requires
            old(de).wf(),
        ensures
            final(de).wf(),
            final(de)@ == old(de)@,
            final(de).is_map_value() == old(de).is_map_value(),
            final(self).has_catch_all() == old(self).has_catch_all(),
            match model::resolve(old(self).pool(), name@, old(de)@) {
                Err(error) => result matches Err(e) && e@ == error,
                Ok(SourceView::Attribute(place)) => {
                    &&& result matches Ok(FieldSource::Attribute(text))
                    &&& place < old(self).pool().len()
                    &&& text@ == old(self).pool()[place as int].value
                    &&& final(self).pool() == old(self).pool().remove(place as int)
                },
                Ok(SourceView::Child) => {
                    &&& result == Ok::<FieldSource, Error>(FieldSource::Child)
                    &&& final(self).pool() == old(self).pool()
                },
                Ok(SourceView::Missing(_)) => {
                    &&& result == Ok::<FieldSource, Error>(FieldSource::Missing)
                    &&& final(self).pool() == old(self).pool()
                },
            },
    {
        match find_attribute(&self.pool, name) {
            Some(place) => {
                let ghost before = attribute_views(self.pool@);
                let attribute = self.pool.remove(place);
                proof {
                    assert(attribute_views(self.pool@) =~= before.remove(place as int));
                    assert(before[place as int].value == attribute.value@);
                }
                Ok(FieldSource::Attribute(attribute.value))
            },
            None => match de.peek() {
                Ok(event) => match event {
                    Event::StartElement { name: tag, .. } => if tag.local_name == *name {
                        Ok(FieldSource::Child)
                    } else {
                        Ok(FieldSource::Missing)
                    },
                    _ => Ok(FieldSource::Missing),
                },
                Err(error) => Err(error),
            },
        }
    }
}

/// Decodes the text of an attribute into a value of shape `shape`. The text
/// stands for character data at a bare position: a scalar converts it, an
/// optional value is present, and a shape that asks for an element meets a
/// mismatch.
pub fn decode_text(shape: &Shape, text: String) -> (result: Result<Value, Error>)
    ensures
        match result {
            Ok(value) => model::decode_text(*shape, text@) == Ok::<ValueView, ErrorView>(value@),
            Err(error) => model::decode_text(*shape, text@) == Err::<ValueView, ErrorView>(error@),
        },
    decreases shape,
{
    match shape {
        Shape::Scalar(kind) => convert_text(*kind, text),
        Shape::Optional(inner) => match decode_text(inner, text) {
            Ok(value) => Ok(Value::Present(Box::new(value))),
            Err(error) => Err(error),
        },
        Shape::Ignore => Ok(Value::Unit),
        Shape::Any => Ok(Value::Str(text)),
        Shape::Unit => Err(
            Error::Mismatch { expected: Expected::EndElement, found: Event::Characters(text) },
        ),
        _ => Err(
            Error::Mismatch { expected: Expected::StartElement, found: Event::Characters(text) },
        ),
    }
}

impl<'a> Deserializer<'a> {
    /// Decodes a record: one element, whose attributes and children hold the
    /// fields.
    pub fn record(&mut self, declared: &Vec<Field>, catch_all: bool) -> (result: Result<
        Value,
        Error,
    >)
        requires
            old(self).wf(),
        ensures
            final(self).wf(),
            final(self).is_map_value() == old(self).is_map_value(),
            fulfils(result, final(self)@, model::record(declared@, catch_all, old(self)@)),
        decreases declared@, 1nat, 0nat,
    {
        let (name, attributes) = self.open_element()?;
        let value = self.fields(declared, catch_all, attributes)?;
        self.expect_end_element(name)?;
        Ok(value)
    }

    /// Decodes the fields of a record inside its element, whose attributes
    /// are `attributes`.
    pub fn fields(&mut self, declared: &Vec<Field>, catch_all: bool, attributes: Vec<Attribute>) -> (result:
        Result<Value, Error>)
        requires
            old(self).wf(),
        ensures
            final(self).wf(),
            final(self).is_map_value() == old(self).is_map_value(),
            fulfils(
                result,
                final(self)@,
                model::fields(
                    declared@,
                    catch_all,
                    0,
                    attribute_views(attributes@),
                    old(self)@,
                    Seq::empty(),
                ),
            ),
        decreases declared@, 0nat, 0nat,
    {
        let mut visitor = RecordVisitor::new(attributes, catch_all);
        let mut done: Vec<Value> = Vec::new();
        let mut at: usize = 0;
        while at < declared.len()
            invariant
                self.wf(),
                self.is_map_value() == old(self).is_map_value(),
                at <= declared.len(),
                visitor.has_catch_all() == catch_all,
                model::fields(
                    declared@,
                    catch_all,
                    at as nat,
                    visitor.pool(),
                    self@,
                    value_views(done@),
                ) == model::fields(
                    declared@,
                    catch_all,
                    0,
                    attribute_views(attributes@),
                    old(self)@,
                    Seq::empty(),
                ),
            decreases declared.len() - at,
        {
            let field = &declared[at];
            let source = match visitor.resolve(self, &field.name) {
                Ok(source) => source,
                Err(error) => {
                    return Err(error);
                },
            };
            let found = match source {
                FieldSource::Attribute(text) => decode_text(&field.shape, text),
                FieldSource::Child => self.field_value(&field.shape),
                FieldSource::Missing => self.missing(field),
            };
            let value = match found {
                Ok(value) => value,
                Err(error) => {
                    return Err(error);
                },
            };
            proof {
                lemma_value_views_push(done@, value);
            }
            done.push(value);
            at = at + 1;
        }
        if visitor.catch_all() {
            let value = self.any()?;
            proof {
                lemma_value_views_push(done@, value);
            }
            done.push(value);
        }
        Ok(Value::Record(done))
    }

    /// Decodes the value of a field from the children at the cursor, the
    /// first of which bears the field's name.
    pub fn field_value(&mut self, shape: &Shape) -> (result: Result<Value, Error>)
        requires
            old(self).wf(),
        ensures
            final(self).wf(),
            final(self).is_map_value() == old(self).is_map_value(),
            fulfils(result, final(self)@, model::field_value(*shape, old(self)@)),
        decreases shape, 5nat, 0nat,
    {
        match shape {
            Shape::Sequence { item, len } => self.run(item, *len),
            _ => self.decode(shape, false),
        }
    }

    /// The value of a field that neither an attribute nor the child at the
    /// cursor holds: an optional value is missing, a sequence is an empty
    /// run, and any other shape fails on the event that stands where the
    /// field's start tag had to stand. The cursor is not moved.
    pub fn missing(&mut self, field: &Field) -> (result: Result<Value, Error>)
        requires
            old(self).wf(),
        ensures
            final(self).wf(),
            final(self).is_map_value() == old(self).is_map_value(),
            final(self)@ == old(self)@,
            match old(self)@.peek() {
                Err(error) => result matches Err(e) && e@ == error,
                Ok(event) => match result {
                    Ok(value) => model::missing(*field, event) == Ok::<ValueView, ErrorView>(value@),
                    Err(error) => model::missing(*field, event) == Err::<ValueView, ErrorView>(
                        error@,
                    ),
                },
            },
    {
        let found = match self.peek() {
            Ok(event) => event,
            Err(error) => {
                return Err(error);
            },
        };
        match &field.shape {
            Shape::Optional(_) => Ok(Value::Absent),
            Shape::Sequence { len, .. } => finish_items(*len, Vec::new(), false),
            _ => Err(
                Error::Mismatch {
                    expected: Expected::Field(field.name.clone()),
                    found: found.duplicate(),
                },
            ),
        }
    }
}

} // verus!
