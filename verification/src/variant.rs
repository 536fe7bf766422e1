//! The variant visitor: one element, whose tag selects the case and whose
//! content is the payload of the case.

use vstd::prelude::*;
use crate::de::Deserializer;
use crate::de::fulfils;
use crate::error::Error;
use crate::error::ErrorView;
use crate::event::Attribute;
use crate::event::AttributeView;
use crate::event::Name;
use crate::event::NameView;
use crate::event::attribute_views;
use crate::model;
use crate::shape::Case;
use crate::shape::Shape;
use crate::stream::Stream;
use crate::value::Value;

verus! {

/// The place of the first case that bears the name `tag`.
pub fn find_case(cases: &Vec<Case>, tag: &String) -> (result: Option<usize>)
    ensures
        match result {
            Some(place) => place < cases.len() && model::find_case(cases@, tag@, 0) == Some(
                place as nat,
            ),
            None => model::find_case(cases@, tag@, 0) is None,
        },
{
    let mut at: usize = 0;
    while at < cases.len()
        invariant
            at <= cases.len(),
            model::find_case(cases@, tag@, at as nat) == model::find_case(cases@, tag@, 0),
        decreases cases.len() - at,
    {
        if cases[at].name == *tag {
            return Some(at);
        }
        at = at + 1;
    }
    None
}

/// The bookkeeping of one variant: the name of its element, whose end tag
/// is still to come, and the attributes of that element.
pub struct VariantVisitor {
    tag: Name,
    attributes: Vec<Attribute>,
}

impl VariantVisitor {
    /// The name of the element of the variant.
    pub closed spec fn tag(&self) -> NameView {
        self.tag@
    }

    /// The attributes of the element of the variant.
    pub closed spec fn attributes(&self) -> Seq<AttributeView> {
        attribute_views(self.attributes@)
    }

    /// Consumes the start tag of the element of a variant.
    pub fn open(de: &mut Deserializer) -> (result: Result<Self, Error>)
        requires
            old(de).wf(),
        ensures
            final(de).wf(),
            final(de).is_map_value() == old(de).is_map_value(),
            match result {
                Ok(visitor) => old(de)@.open_element() == Ok::<
                    (NameView, Seq<AttributeView>, Stream),
                    ErrorView,
                >((visitor.tag(), visitor.attributes(), final(de)@)),
                Err(error) => old(de)@.open_element() == Err::<
                    (NameView, Seq<AttributeView>, Stream),
                    ErrorView,
                >(error@),
            },
    {
        match de.open_element() {
            Ok((tag, attributes)) => Ok(VariantVisitor { tag, attributes }),
            Err(error) => Err(error),
        }
    }

    /// The local name of the tag, which names the case.
    pub fn name(&self) -> (name: &String)
        ensures
            name@ == self.tag().local_name,
    {
        &self.tag.local_name
    }

    /// The place of the case that the tag selects: the first that bears
    /// its local name. A tag that no case bears is an unknown variant.
    pub fn select(&self, cases: &Vec<Case>) -> (result: Result<usize, Error>)
        ensures
            match model::find_case(cases@, self.tag().local_name, 0) {
                Some(place) => result == Ok::<usize, Error>(place as usize) && place < cases.len(),
                None => result matches Err(error) && error@ == ErrorView::UnknownVariant(
                    self.tag().local_name,
                ),
            },
    {
        match find_case(cases, &self.tag.local_name) {
            Some(place) => Ok(place),
            None => Err(Error::UnknownVariant(self.tag.local_name.clone())),
        }
    }

    /// Gives up the name of the element, for its end tag to be checked, and
    /// its attributes, for a payload that is a record.
    pub fn into_parts(self) -> (parts: (Name, Vec<Attribute>))
        ensures
            parts.0@ == self.tag(),
            attribute_views(parts.1@) == self.attributes(),
    {
        (self.tag, self.attributes)
    }
}

impl<'a> Deserializer<'a> {
    /// Decodes a variant.
    pub fn variant(&mut self, cases: &Vec<Case>, bare: bool) -> (result: Result<Value, Error>)
        requires
            old(self).wf(),
        ensures
            final(self).wf(),
            final(self).is_map_value() == old(self).is_map_value(),
            fulfils(result, final(self)@, model::variant(cases@, bare, old(self)@)),
        decreases cases@, 2nat, 0nat,
    {
        let wrapper = self.enter(bare)?;
        let value = self.variant_content(cases)?;
        self.leave(wrapper)?;
        Ok(value)
    }

    /// Decodes the element of a variant: its tag selects the case, its
    /// content is the payload, its end tag must follow.
    pub fn variant_content(&mut self, cases: &Vec<Case>) -> (result: Result<Value, Error>)
        requires
            old(self).wf(),
        ensures
            final(self).wf(),
            final(self).is_map_value() == old(self).is_map_value(),
            fulfils(result, final(self)@, model::variant_content(cases@, old(self)@)),
        decreases cases@, 1nat, 0nat,
    {
        let visitor = VariantVisitor::open(self)?;
        let at = visitor.select(cases)?;
        let (tag, attributes) = visitor.into_parts();
        let value = self.payload(&cases[at].payload, attributes)?;
        self.expect_end_element(tag)?;
        Ok(Value::Variant(at, Box::new(value)))
    }

    /// Decodes the payload of a case inside the case's element: a record
    /// takes the attributes of that element as its own, any other shape
    /// stands bare.
    pub fn payload(&mut self, shape: &Shape, attributes: Vec<Attribute>) -> (result: Result<
        Value,
        Error,
    >)
        requires
            old(self).wf(),
        ensures
            final(self).wf(),
            final(self).is_map_value() == old(self).is_map_value(),
            fulfils(
                result,
                final(self)@,
                model::payload(*shape, attribute_views(attributes@), old(self)@),
            ),
        decreases shape, 2nat, 0nat,
    {
        match shape {
            Shape::Record { fields, catch_all } => self.fields(fields, *catch_all, attributes),
            _ => self.decode(shape, true),
        }
    }
}

} // verus!
