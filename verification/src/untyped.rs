//! Decoding without a declared shape: the document decides what a value
//! is.

use vstd::prelude::*;
use vstd::string::StringExecFns;
use crate::de::Deserializer;
use crate::de::fulfils;
use crate::error::Error;
use crate::error::ErrorView;
use crate::error::Expected;
use crate::event::AttributeView;
use crate::event::Event;
use crate::event::NameView;
use crate::event::attribute_views;
use crate::model;
use crate::progress::lemma_any_shrinks;
use crate::stream::Stream;
use crate::value::Entry;
use crate::value::EntryView;
use crate::value::Value;
use crate::value::entry_views;
use crate::value::lemma_entry_views_push;

verus! {

/// The sorts of event that decoding without a declared shape tells apart.
pub enum Sort {
    Start,
    End,
    Text,
    Other,
}

/// The sort of `event`.
pub fn sort_of(event: &Event) -> (sort: Sort)
    ensures
        sort is Start <==> event@ is StartElement,
        sort is End <==> event@ is EndElement,
        sort is Text <==> event@ is Characters,
{
    match event {
        Event::StartElement { .. } => Sort::Start,
        Event::EndElement { .. } => Sort::End,
        Event::Characters(_) => Sort::Text,
        _ => Sort::Other,
    }
}

impl<'a> Deserializer<'a> {
    /// Decodes what stands at the cursor as the document shapes it: a start
    /// tag opens an element, an end tag means no value and stays, anything
    /// else must be character data.
    pub fn any(&mut self) -> (result: Result<Value, Error>)
        requires
            old(self).wf(),
        ensures
            final(self).wf(),
            final(self).is_map_value() == old(self).is_map_value(),
            fulfils(result, final(self)@, model::any(old(self)@)),
        decreases old(self)@.tokens.len(), 1nat,
    {
        let sort = match self.peek() {
            Ok(event) => sort_of(event),
            Err(error) => {
                return Err(error);
            },
        };
        match sort {
            Sort::Start => self.element(),
            Sort::End => Ok(Value::Unit),
            _ => match self.next() {
                Ok(Event::Characters(text)) => Ok(Value::Str(text)),
                Ok(other) => Err(Error::Mismatch { expected: Expected::Characters, found: other }),
                Err(error) => Err(error),
            },
        }
    }

    /// Decodes one element without a declared shape: its attributes, then
    /// its children in document order, then its end tag.
    pub fn element(&mut self) -> (result: Result<Value, Error>)
        requires
            old(self).wf(),
        ensures
            final(self).wf(),
            final(self).is_map_value() == old(self).is_map_value(),
            fulfils(result, final(self)@, model::element(old(self)@)),
        decreases old(self)@.tokens.len(), 0nat,
    {
        let (name, attributes) = match self.open_element() {
            Ok(opened) => opened,
            Err(error) => {
                return Err(error);
            },
        };
        let ghost inner = self@;
        let ghost initial = model::attribute_entries(attribute_views(attributes@));
        let mut entries: Vec<Entry> = Vec::new();
        let mut at: usize = 0;
        while at < attributes.len()
            invariant
                at <= attributes.len(),
                initial == model::attribute_entries(attribute_views(attributes@)),
                entry_views(entries@) == initial.take(at as int),
            decreases attributes.len() - at,
        {
            let entry = Entry {
                key: attributes[at].name.local_name.clone(),
                value: Value::Str(attributes[at].value.clone()),
            };
            proof {
                lemma_entry_views_push(entries@, entry);
                assert(initial.take(at as int).push(entry@) =~= initial.take(at as int + 1));
            }
            entries.push(entry);
            at = at + 1;
        }
        proof {
            assert(initial.take(at as int) =~= initial);
        }
        loop
            invariant
                self.wf(),
                self.is_map_value() == old(self).is_map_value(),
                self@.tokens.len() <= inner.tokens.len(),
                inner.tokens.len() < old(self)@.tokens.len(),
                initial == model::attribute_entries(attribute_views(attributes@)),
                old(self)@.open_element() == Ok::<
                    (NameView, Seq<AttributeView>, Stream),
                    ErrorView,
                >((name@, attribute_views(attributes@), inner)),
                model::children(self@, entry_views(entries@)) == model::children(inner, initial),
            ensures
                self.wf(),
                self.is_map_value() == old(self).is_map_value(),
                self@.tokens.len() <= inner.tokens.len(),
                model::children(inner, initial) == Ok::<(Seq<EntryView>, Stream), ErrorView>(
                    (entry_views(entries@), self@),
                ),
            decreases self@.tokens.len(),
        {
            let ghost before = self@;
            let (sort, key) = match self.peek() {
                Ok(event) => match event {
                    Event::StartElement { name, .. } => (Sort::Start, name.local_name.clone()),
                    Event::Characters(_) => (Sort::Text, String::from_str("$value")),
                    _ => (Sort::Other, String::new()),
                },
                Err(error) => {
                    return Err(error);
                },
            };
            let value = match sort {
                Sort::Start => match self.any() {
                    Ok(value) => {
                        proof {
                            lemma_any_shrinks(before);
                        }
                        value
                    },
                    Err(error) => {
                        return Err(error);
                    },
                },
                Sort::Text => match self.next() {
                    Ok(Event::Characters(text)) => Value::Str(text),
                    Ok(other) => {
                        return Err(
                            Error::Mismatch { expected: Expected::Characters, found: other },
                        );
                    },
                    Err(error) => {
                        return Err(error);
                    },
                },
                _ => {
                    break ;
                },
            };
            let entry = Entry { key, value };
            proof {
                lemma_entry_views_push(entries@, entry);
            }
            entries.push(entry);
        }
        match self.expect_end_element(name) {
            Ok(_) => Ok(Value::Element(entries)),
            Err(error) => Err(error),
        }
    }
}

} // verus!
