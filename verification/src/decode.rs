//! The decoder proper: the read for each shape, and the reads that take
//! their mode from the one-shot signal of the cursor.

use vstd::prelude::*;
use crate::de::Deserializer;
use crate::de::fulfils;
use crate::error::Error;
use crate::error::ErrorView;
use crate::model;
use crate::scalar::ScalarKind;
use crate::scalar::convert_text;
use crate::shape::Case;
use crate::shape::Field;
use crate::shape::Shape;
use crate::stream::Stream;
use crate::stream::document;
use crate::value::Value;
use crate::value::ValueView;

verus! {

impl<'a> Deserializer<'a> {
    /// Decodes a value of shape `shape` at the cursor. Where `bare` is
    /// unset, a unit, a scalar, a sequence and a variant stand inside an
    /// element of their own, which is consumed with them.
    pub fn decode(&mut self, shape: &Shape, bare: bool) -> (result: Result<Value, Error>)
        requires
            old(self).wf(),
        ensures
            final(self).wf(),
            final(self).is_map_value() == old(self).is_map_value(),
            fulfils(result, final(self)@, model::decode(*shape, bare, old(self)@)),
        decreases shape, 1nat, 0nat,
    {
        match shape {
            Shape::Unit => self.unit(bare),
            Shape::Scalar(kind) => self.scalar(*kind, bare),
            Shape::Optional(inner) => self.optional(inner, bare),
            Shape::Sequence { item, len } => self.sequence(item, *len, bare),
            Shape::Record { fields, catch_all } => self.record(fields, *catch_all),
            Shape::Variant { cases } => self.variant(cases, bare),
            Shape::Ignore => self.skip(),
            Shape::Any => self.any(),
        }
    }

    /// Decodes an element without content.
    pub fn unit(&mut self, bare: bool) -> (result: Result<Value, Error>)
        requires
            old(self).wf(),
        ensures
            final(self).wf(),
            final(self).is_map_value() == old(self).is_map_value(),
            fulfils(result, final(self)@, model::unit(bare, old(self)@)),
    {
        let wrapper = self.enter(bare)?;
        let value = self.unit_content()?;
        self.leave(wrapper)?;
        Ok(value)
    }

    /// Decodes the text of a value, without converting it.
    pub fn text_value(&mut self, bare: bool) -> (result: Result<String, Error>)
        requires
            old(self).wf(),
        ensures
            final(self).wf(),
            final(self).is_map_value() == old(self).is_map_value(),
            match result {
                Ok(text) => model::text_value(bare, old(self)@) == Ok::<
                    (Seq<char>, Stream),
                    ErrorView,
                >((text@, final(self)@)),
                Err(error) => model::text_value(bare, old(self)@) == Err::<
                    (Seq<char>, Stream),
                    ErrorView,
                >(error@),
            },
    {
        let wrapper = self.enter(bare)?;
        let text = self.text_content()?;
        self.leave(wrapper)?;
        Ok(text)
    }

    /// Decodes a scalar of kind `kind`.
    pub fn scalar(&mut self, kind: ScalarKind, bare: bool) -> (result: Result<Value, Error>)
        requires
            old(self).wf(),
        ensures
            final(self).wf(),
            final(self).is_map_value() == old(self).is_map_value(),
            fulfils(result, final(self)@, model::scalar(kind, bare, old(self)@)),
    {
        let wrapper = self.enter(bare)?;
        let text = self.text_content()?;
        let value = convert_text(kind, text)?;
        self.leave(wrapper)?;
        Ok(value)
    }

    /// Decodes a value that may be missing.
    pub fn optional(&mut self, inner: &Shape, bare: bool) -> (result: Result<Value, Error>)
        requires
            old(self).wf(),
        ensures
            final(self).wf(),
            final(self).is_map_value() == old(self).is_map_value(),
            fulfils(result, final(self)@, model::optional(*inner, bare, old(self)@)),
        decreases inner, 2nat, 0nat,
    {
        if !self.is_present(bare)? {
            return Ok(Value::Absent);
        }
        match self.decode(inner, bare) {
            Ok(value) => Ok(Value::Present(Box::new(value))),
            Err(error) => Err(error),
        }
    }

    /// Decodes a value of shape `shape`. The signal decides whether the
    /// value stands bare, and is unset by the read.
    pub fn deserialize_shape(&mut self, shape: &Shape) -> (result: Result<Value, Error>)
        requires
            old(self).wf(),
        ensures
            final(self).wf(),
            !final(self).is_map_value(),
            fulfils(
                result,
                final(self)@,
                model::decode(*shape, old(self).is_map_value(), old(self)@),
            ),
    {
        let bare = self.unset_map_value();
        self.decode(shape, bare)
    }

    /// Decodes what stands at the cursor without a declared shape: a start
    /// tag opens an element, an end tag means no value, anything else must
    /// be character data. The signal is unset.
    pub fn deserialize(&mut self) -> (result: Result<Value, Error>)
        requires
            old(self).wf(),
        ensures
            final(self).wf(),
            !final(self).is_map_value(),
            fulfils(result, final(self)@, model::any(old(self)@)),
    {
        self.unset_map_value();
        self.any()
    }

    /// Decodes the text of a value. The signal decides whether the text
    /// stands bare at the cursor or inside an element of its own, and is
    /// unset by the read.
    pub fn deserialize_string(&mut self) -> (result: Result<String, Error>)
        requires
            old(self).wf(),
        ensures
            final(self).wf(),
            !final(self).is_map_value(),
            match result {
                Ok(text) => model::text_value(old(self).is_map_value(), old(self)@) == Ok::<
                    (Seq<char>, Stream),
                    ErrorView,
                >((text@, final(self)@)),
                Err(error) => model::text_value(old(self).is_map_value(), old(self)@) == Err::<
                    (Seq<char>, Stream),
                    ErrorView,
                >(error@),
            },
    {
        let bare = self.unset_map_value();
        self.text_value(bare)
    }

    /// Decodes a scalar of kind `kind` from the text of a value. The signal
    /// is read and unset as by `deserialize_string`.
    pub fn deserialize_scalar(&mut self, kind: ScalarKind) -> (result: Result<Value, Error>)
        requires
            old(self).wf(),
        ensures
            final(self).wf(),
            !final(self).is_map_value(),
            fulfils(
                result,
                final(self)@,
                model::scalar(kind, old(self).is_map_value(), old(self)@),
            ),
    {
        let bare = self.unset_map_value();
        self.scalar(kind, bare)
    }

    /// Decodes an element without content. The signal decides whether the
    /// end tag is looked for at the cursor or inside an element of its own,
    /// and is unset by the read.
    pub fn deserialize_unit(&mut self) -> (result: Result<Value, Error>)
        requires
            old(self).wf(),
        ensures
            final(self).wf(),
            !final(self).is_map_value(),
            fulfils(result, final(self)@, model::unit(old(self).is_map_value(), old(self)@)),
    {
        let bare = self.unset_map_value();
        self.unit(bare)
    }

    /// Decodes a value that may be missing. Under the signal it is present;
    /// else it is missing where an end tag stands at the cursor. The signal
    /// is unset by the read.
    pub fn deserialize_option(&mut self, inner: &Shape) -> (result: Result<Value, Error>)
        requires
            old(self).wf(),
        ensures
            final(self).wf(),
            !final(self).is_map_value(),
            fulfils(
                result,
                final(self)@,
                model::optional(*inner, old(self).is_map_value(), old(self)@),
            ),
    {
        let bare = self.unset_map_value();
        self.optional(inner, bare)
    }

    /// Decodes a sequence of any length. The signal decides whether the run
    /// of items stands at the cursor or inside an element of its own, and is
    /// unset by the read.
    pub fn deserialize_seq(&mut self, item: &Shape) -> (result: Result<Value, Error>)
        requires
            old(self).wf(),
        ensures
            final(self).wf(),
            !final(self).is_map_value(),
            fulfils(
                result,
                final(self)@,
                model::sequence(*item, None, old(self).is_map_value(), old(self)@),
            ),
    {
        let bare = self.unset_map_value();
        self.sequence(item, None, bare)
    }

    /// Decodes a sequence of exactly `len` items. The signal is read and
    /// unset as by `deserialize_seq`.
    pub fn deserialize_seq_fixed_size(&mut self, len: usize, item: &Shape) -> (result: Result<
        Value,
        Error,
    >)
        requires
            old(self).wf(),
        ensures
            final(self).wf(),
            !final(self).is_map_value(),
            fulfils(
                result,
                final(self)@,
                model::sequence(*item, Some(len), old(self).is_map_value(), old(self)@),
            ),
    {
        let bare = self.unset_map_value();
        self.sequence(item, Some(len), bare)
    }

    /// Decodes a record with the fields `fields` and, with `catch_all`, a
    /// catch-all behind them. The signal is unset.
    pub fn deserialize_struct(&mut self, fields: &Vec<Field>, catch_all: bool) -> (result: Result<
        Value,
        Error,
    >)
        requires
            old(self).wf(),
        ensures
            final(self).wf(),
            !final(self).is_map_value(),
            fulfils(result, final(self)@, model::record(fields@, catch_all, old(self)@)),
    {
        self.unset_map_value();
        self.record(fields, catch_all)
    }

    /// Decodes one element without a declared shape. The signal is unset.
    pub fn deserialize_map(&mut self) -> (result: Result<Value, Error>)
        requires
            old(self).wf(),
        ensures
            final(self).wf(),
            !final(self).is_map_value(),
            fulfils(result, final(self)@, model::element(old(self)@)),
    {
        self.unset_map_value();
        self.element()
    }

    /// Decodes a variant with the cases `cases`. The signal decides whether
    /// the element of the case stands at the cursor or inside an element of
    /// its own, and is unset by the read.
    pub fn deserialize_enum(&mut self, cases: &Vec<Case>) -> (result: Result<Value, Error>)
        requires
            old(self).wf(),
        ensures
            final(self).wf(),
            !final(self).is_map_value(),
            fulfils(
                result,
                final(self)@,
                model::variant(cases@, old(self).is_map_value(), old(self)@),
            ),
    {
        let bare = self.unset_map_value();
        self.variant(cases, bare)
    }

    /// Passes over what stands at the cursor: one event, and with a start
    /// tag the whole element that it opens. The signal is unset.
    pub fn deserialize_ignored_any(&mut self) -> (result: Result<Value, Error>)
        requires
            old(self).wf(),
        ensures
            final(self).wf(),
            !final(self).is_map_value(),
            fulfils(result, final(self)@, model::skip(old(self)@)),
    {
        self.unset_map_value();
        self.skip()
    }
}

/// Decodes the document `reader`, tokenized under the default
/// normalization, into a value of shape `shape`. The value is what the root
/// of the document holds: a unit, a scalar and a variant stand inside the
/// root element. What follows the value in the document is not read.
pub fn deserialize(reader: &[u8], shape: &Shape) -> (result: Result<Value, Error>)
    ensures
        match result {
            Ok(value) => model::decode(*shape, false, document(reader@)) matches Ok((decoded, _))
                && decoded == value@,
            Err(error) => model::decode(*shape, false, document(reader@)) == Err::<
                (ValueView, Stream),
                ErrorView,
            >(error@),
        },
{
    let mut de = Deserializer::new_from_reader(reader);
    de.decode(shape, false)
}

} // verus!
