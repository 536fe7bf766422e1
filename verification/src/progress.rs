//! Decoding never goes back: every step of the model leaves a stream that
//! is no longer than the one it met, and a step that reads an element leaves
//! a shorter one. The model's definitions rest on this where a run of items
//! or children goes on behind the value just decoded.

use vstd::prelude::*;
use crate::event::AttributeView;
use crate::event::EventView;
use crate::model::SourceView;
use crate::model::Step;
use crate::model;
use crate::shape::Case;
use crate::shape::Field;
use crate::shape::Shape;
use crate::stream::Stream;
use crate::value::EntryView;
use crate::value::ValueView;

verus! {

/// Whether `step`, taken from the stream `s`, leaves no more events than
/// `s` holds.
pub open spec fn shrinks<V>(s: Stream, step: Step<V>) -> bool {
    step matches Ok((_, rest)) ==> rest.tokens.len() <= s.tokens.len()
}

/// Whether `step`, taken from the stream `s`, leaves fewer events than `s`
/// holds.
pub open spec fn consumes<V>(s: Stream, step: Step<V>) -> bool {
    step matches Ok((_, rest)) ==> rest.tokens.len() < s.tokens.len()
}

/// Skipping consumes at least one event.
pub proof fn lemma_skip_until_consumes(target: nat, s: Stream)
    ensures
        consumes(s, model::skip_until(target, s)),
    decreases s.tokens.len(),
{
    match s.next() {
        Ok((_, rest)) => {
            if rest.depth != target {
                lemma_skip_until_consumes(target, rest);
            }
        },
        Err(_) => {},
    }
}

/// Decoding without a declared shape never goes back, and consumes the
/// element that a start tag at the cursor opens.
pub proof fn lemma_any_shrinks(s: Stream)
    ensures
        shrinks(s, model::any(s)),
        s.at_start() ==> consumes(s, model::any(s)),
    decreases s.tokens.len(), 1nat,
{
    if s.at_start() {
        lemma_element_consumes(s);
    }
}

/// An element decoded without a declared shape is consumed.
pub proof fn lemma_element_consumes(s: Stream)
    ensures
        consumes(s, model::element(s)),
    decreases s.tokens.len(), 0nat,
{
    match s.open_element() {
        Ok((_, attributes, inner)) => {
            lemma_children_shrink(inner, model::attribute_entries(attributes));
        },
        Err(_) => {},
    }
}

/// The children of an element decoded without a declared shape never go
/// back.
pub proof fn lemma_children_shrink(s: Stream, entries: Seq<EntryView>)
    ensures
        shrinks(s, model::children(s, entries)),
    decreases s.tokens.len(), 2nat,
{
    if s.tokens.len() > 0 {
        match s.tokens[0] {
            EventView::StartElement { name, .. } => {
                lemma_any_shrinks(s);
                match model::any(s) {
                    Ok((value, rest)) => {
                        lemma_children_shrink(
                            rest,
                            entries.push(EntryView { key: name.local_name, value }),
                        );
                    },
                    Err(_) => {},
                }
            },
            EventView::Characters(text) => {
                lemma_children_shrink(
                    s.rest(s.depth),
                    entries.push(
                        EntryView { key: model::text_key(), value: ValueView::Str(text) },
                    ),
                );
            },
            _ => {},
        }
    }
}

/// Decoding a value of any shape never goes back, and a value that does not
/// stand bare consumes the element that a start tag at the cursor opens.
pub proof fn lemma_decode_shrinks(shape: Shape, bare: bool, s: Stream)
    ensures
        shrinks(s, model::decode(shape, bare, s)),
        !bare && s.at_start() ==> consumes(s, model::decode(shape, bare, s)),
    decreases shape, 1nat, 0nat,
{
    match shape {
        Shape::Unit => {},
        Shape::Scalar(_) => {},
        Shape::Optional(inner) => {
            lemma_optional_shrinks(*inner, bare, s);
        },
        Shape::Sequence { item, len } => {
            lemma_sequence_shrinks(*item, len, bare, s);
        },
        Shape::Record { fields: declared, catch_all } => {
            lemma_record_consumes(declared@, catch_all, s);
        },
        Shape::Variant { cases } => {
            lemma_variant_consumes(cases@, bare, s);
        },
        Shape::Ignore => {
            lemma_skip_until_consumes(s.depth, s);
        },
        Shape::Any => {
            lemma_any_shrinks(s);
        },
    }
}

/// A value that may be missing never goes back.
pub proof fn lemma_optional_shrinks(inner: Shape, bare: bool, s: Stream)
    ensures
        shrinks(s, model::optional(inner, bare, s)),
        !bare && s.at_start() ==> consumes(s, model::optional(inner, bare, s)),
    decreases inner, 2nat, 0nat,
{
    lemma_decode_shrinks(inner, bare, s);
}

/// A sequence never goes back, and one that does not stand bare consumes
/// its wrapper.
pub proof fn lemma_sequence_shrinks(item: Shape, len: Option<usize>, bare: bool, s: Stream)
    ensures
        shrinks(s, model::sequence(item, len, bare, s)),
        !bare ==> consumes(s, model::sequence(item, len, bare, s)),
    decreases item, 4nat, 0nat,
{
    match model::enter(bare, s) {
        Ok((_, inner)) => {
            lemma_run_shrinks(item, len, inner);
        },
        Err(_) => {},
    }
}

/// A run of items never goes back.
pub proof fn lemma_run_shrinks(item: Shape, len: Option<usize>, s: Stream)
    ensures
        shrinks(s, model::run(item, len, s)),
    decreases item, 3nat, 0nat,
{
    if s.tokens.len() > 0 {
        match s.tokens[0] {
            EventView::StartElement { name, .. } => {
                lemma_items_shrink(item, len, name.local_name, s, Seq::empty());
            },
            _ => {},
        }
    }
}

/// The items of a run never go back, and each item that the run takes is
/// consumed: the run always goes on from a shorter stream.
pub proof fn lemma_items_shrink(
    item: Shape,
    len: Option<usize>,
    tag: Seq<char>,
    s: Stream,
    done: Seq<ValueView>,
)
    ensures
        shrinks(s, model::items(item, len, tag, s, done)),
        s.tokens.len() > 0 && model::claims(s.tokens[0], tag) ==> consumes(
            s,
            model::decode(item, false, s),
        ),
    decreases item, 2nat, s.tokens.len(),
{
    if s.tokens.len() > 0 {
        lemma_decode_shrinks(item, false, s);
        if model::claims(s.tokens[0], tag) && model::owed(len, done.len()) {
            match model::decode(item, false, s) {
                Ok((value, rest)) => {
                    lemma_items_shrink(item, len, tag, rest, done.push(value));
                },
                Err(_) => {},
            }
        }
    }
}

/// A record consumes its element.
pub proof fn lemma_record_consumes(declared: Seq<Field>, catch_all: bool, s: Stream)
    ensures
        consumes(s, model::record(declared, catch_all, s)),
    decreases declared, 1nat, 0nat,
{
    match s.open_element() {
        Ok((_, attributes, inner)) => {
            lemma_fields_shrink(declared, catch_all, 0, attributes, inner, Seq::empty());
        },
        Err(_) => {},
    }
}

/// The value of a field among the children never goes back.
pub proof fn lemma_field_value_shrinks(shape: Shape, s: Stream)
    ensures
        shrinks(s, model::field_value(shape, s)),
    decreases shape, 5nat, 0nat,
{
    match shape {
        Shape::Sequence { item, len } => {
            lemma_run_shrinks(*item, len, s);
        },
        _ => {
            lemma_decode_shrinks(shape, false, s);
        },
    }
}

/// The fields of a record never go back.
pub proof fn lemma_fields_shrink(
    declared: Seq<Field>,
    catch_all: bool,
    at: nat,
    pool: Seq<AttributeView>,
    s: Stream,
    done: Seq<ValueView>,
)
    ensures
        shrinks(s, model::fields(declared, catch_all, at, pool, s, done)),
    decreases declared, 0nat, declared.len() - at,
{
    if at >= declared.len() {
        lemma_any_shrinks(s);
    } else {
        let field = declared[at as int];
        match model::resolve(pool, field.name@, s) {
            Ok(SourceView::Attribute(place)) => {
                match model::decode_text(field.shape, pool[place as int].value) {
                    Ok(value) => {
                        lemma_fields_shrink(
                            declared,
                            catch_all,
                            at + 1,
                            pool.remove(place as int),
                            s,
                            done.push(value),
                        );
                    },
                    Err(_) => {},
                }
            },
            Ok(SourceView::Child) => {
                lemma_field_value_shrinks(field.shape, s);
                match model::field_value(field.shape, s) {
                    Ok((value, rest)) => {
                        lemma_fields_shrink(declared, catch_all, at + 1, pool, rest, done.push(value));
                    },
                    Err(_) => {},
                }
            },
            Ok(SourceView::Missing(event)) => {
                match model::missing(field, event) {
                    Ok(value) => {
                        lemma_fields_shrink(declared, catch_all, at + 1, pool, s, done.push(value));
                    },
                    Err(_) => {},
                }
            },
            Err(_) => {},
        }
    }
}

/// A variant consumes its element.
pub proof fn lemma_variant_consumes(cases: Seq<Case>, bare: bool, s: Stream)
    ensures
        consumes(s, model::variant(cases, bare, s)),
    decreases cases, 2nat, 0nat,
{
    match model::enter(bare, s) {
        Ok((_, inner)) => {
            lemma_variant_content_consumes(cases, inner);
        },
        Err(_) => {},
    }
}

/// The element of a variant is consumed.
pub proof fn lemma_variant_content_consumes(cases: Seq<Case>, s: Stream)
    ensures
        consumes(s, model::variant_content(cases, s)),
    decreases cases, 1nat, 0nat,
{
    match s.open_element() {
        Ok((tag, attributes, inner)) => {
            match model::find_case(cases, tag.local_name, 0) {
                Some(at) => {
                    if at < cases.len() {
                        lemma_payload_shrinks(cases[at as int].payload, attributes, inner);
                    }
                },
                None => {},
            }
        },
        Err(_) => {},
    }
}

/// The payload of a case never goes back.
pub proof fn lemma_payload_shrinks(shape: Shape, attributes: Seq<AttributeView>, s: Stream)
    ensures
        shrinks(s, model::payload(shape, attributes, s)),
    decreases shape, 2nat, 0nat,
{
    match shape {
        Shape::Record { fields: declared, catch_all } => {
            lemma_fields_shrink(declared@, catch_all, 0, attributes, s, Seq::empty());
        },
        _ => {
            lemma_decode_shrinks(shape, true, s);
        },
    }
}

} // verus!
