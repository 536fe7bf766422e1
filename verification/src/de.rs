//! The token cursor: one event of lookahead over a pull source, the nesting
//! depth, and the one-shot signal that the next value stands bare at the
//! cursor.

use vstd::prelude::*;
use crate::error::Error;
use crate::error::ErrorView;
use crate::error::Expected;
use crate::event::Attribute;
use crate::event::AttributeView;
use crate::event::Event;
use crate::event::EventView;
use crate::event::Name;
use crate::event::NameView;
use crate::event::attribute_views;
use crate::model::Step;
use crate::model;
use crate::source::EventSource;
use crate::source::ending;
use crate::source::lower;
use crate::source::pull;
use crate::source::upcoming;
use crate::stream::Stream;
use crate::stream::closing;
use crate::stream::content;
use crate::stream::document;
use crate::value::Value;
use crate::value::ValueView;

verus! {

/// A decoder over one document: the token cursor and the reads on it. It
/// lives for the whole decode and every read changes it. After a failure
/// the decode is over: nothing is promised of where the cursor stands.
pub struct Deserializer<'a> {
    depth: usize,
    reader: EventSource<'a>,
    peeked: Option<Event>,
    is_map_value: bool,
}

impl<'a> View for Deserializer<'a> {
    type V = Stream;

    closed spec fn view(&self) -> Stream {
        Stream {
            tokens: match self.peeked {
                Some(event) => seq![event@] + content(upcoming(self.reader)),
                None => content(upcoming(self.reader)),
            },
            closing: closing(ending(self.reader)),
            depth: self.depth as nat,
        }
    }
}

impl<'a> Deserializer<'a> {
    /// The invariant of a decoder: an event held as lookahead is a content
    /// event. Every constructor establishes it and every method keeps it.
    pub closed spec fn wf(&self) -> bool {
        self.peeked matches Some(event) ==> !event@.is_skipped()
    }

    /// Whether the one-shot signal is set: the next value stands bare at the
    /// cursor, with no element of its own around it.
    pub closed spec fn is_map_value(&self) -> bool {
        self.is_map_value
    }

    /// A decoder at the start of what `reader` delivers, at depth 0, with
    /// the signal unset.
    pub fn new(reader: EventSource<'a>) -> (de: Self)
        ensures
            de.wf(),
            de@ == (Stream {
                tokens: content(upcoming(reader)),
                closing: closing(ending(reader)),
                depth: 0,
            }),
            !de.is_map_value(),
    {
        Deserializer { depth: 0, reader, peeked: None, is_map_value: false }
    }

    /// A decoder at the start of the document `reader`, tokenized under the
    /// default normalization.
    pub fn new_from_reader(reader: &'a [u8]) -> (de: Self)
        ensures
            de.wf(),
            de@ == document(reader@),
            !de.is_map_value(),
    {
        Self::new(EventSource::normalized(reader))
    }

    /// The next content event from the source, passing over declarations,
    /// processing instructions and comments.
    fn inner_next(&mut self) -> (result: Result<Event, Error>)
        requires
            old(self).peeked is None,
        ensures
            final(self).peeked is None,
            final(self).depth == old(self).depth,
            final(self).is_map_value == old(self).is_map_value,
            closing(ending(final(self).reader)) == old(self)@.closing,
            match result {
                Ok(event) => {
                    &&& old(self)@.tokens.len() > 0
                    &&& !event@.is_skipped()
                    &&& event@ == old(self)@.tokens[0]
                    &&& content(upcoming(final(self).reader)) == old(self)@.tokens.skip(1)
                },
                Err(error) => {
                    &&& old(self)@.tokens.len() == 0
                    &&& error@ == old(self)@.closing
                    &&& content(upcoming(final(self).reader)).len() == 0
                },
            },
    {
        loop
            invariant
                self.peeked is None,
                self.depth == old(self).depth,
                self.is_map_value == old(self).is_map_value,
                content(upcoming(self.reader)) == content(upcoming(old(self).reader)),
                ending(self.reader) == ending(old(self).reader),
                old(self).peeked is None,
            decreases upcoming(self.reader).len(),
        {
            let ghost before = upcoming(self.reader);
            match pull(&mut self.reader) {
                Err(message) => {
                    return Err(Error::Syntax(message));
                },
                Ok(raw) => {
                    let event = lower(raw);
                    match event {
                        Event::StartDocument | Event::ProcessingInstruction | Event::Comment => {
                            assert(before.len() > 0);
                        },
                        Event::EndDocument => {
                            return Err(Error::end_of_stream());
                        },
                        other => {
                            assert(before.len() > 0);
                            assert(seq![before[0]] + content(before.skip(1)) =~= content(before));
                            assert(content(before).skip(1) =~= content(before.skip(1)));
                            return Ok(other);
                        },
                    }
                },
            }
        }
    }

    /// The next content event, without consuming it. It is kept as
    /// lookahead, so the stream is as before.
    pub fn peek(&mut self) -> (result: Result<&Event, Error>)
        requires
            old(self).wf(),
        ensures
            final(self).wf(),
            final(self)@ == old(self)@,
            final(self).is_map_value() == old(self).is_map_value(),
            match result {
                Ok(event) => old(self)@.peek() == Ok::<EventView, ErrorView>(event@),
                Err(error) => old(self)@.peek() == Err::<EventView, ErrorView>(error@),
            },
    {
        if self.peeked.is_none() {
            match self.inner_next() {
                Ok(event) => {
                    self.peeked = Some(event);
                    assert(self@.tokens =~= old(self)@.tokens);
                },
                Err(error) => {
                    assert(self@.tokens =~= old(self)@.tokens);
                    return Err(error);
                },
            }
        }
        match &self.peeked {
            Some(event) => Ok(event),
            // Not reached: the lookahead was filled above.
            None => Err(Error::end_of_stream()),
        }
    }

    /// Consumes the next content event. A start tag raises the depth by
    /// one; an end tag lowers it by one where an element is open.
    pub fn next(&mut self) -> (result: Result<Event, Error>)
        requires
            old(self).wf(),
        ensures
            final(self).wf(),
            final(self).is_map_value() == old(self).is_map_value(),
            match result {
                Ok(event) => old(self)@.next() == Ok::<(EventView, Stream), ErrorView>((event@, final(self)@)),
                Err(error) => old(self)@.next() == Err::<(EventView, Stream), ErrorView>(error@),
            },
    {
        let event = match self.peeked.take() {
            Some(event) => {
                assert(self@.tokens =~= old(self)@.tokens.skip(1));
                event
            },
            None => match self.inner_next() {
                Ok(event) => event,
                Err(error) => {
                    return Err(error);
                },
            },
        };
        match &event {
            Event::StartElement { .. } => {
                if self.depth == usize::MAX {
                    return Err(Error::nesting_limit());
                }
                self.depth = self.depth + 1;
            },
            Event::EndElement { .. } => {
                if self.depth > 0 {
                    self.depth = self.depth - 1;
                }
            },
            _ => {},
        }
        Ok(event)
    }

    /// The number of start tags consumed whose end tags are still to come.
    pub fn depth(&self) -> (depth: usize)
        ensures
            depth == self@.depth,
    {
        self.depth
    }

    /// Sets the one-shot signal: the next value stands bare at the cursor,
    /// as a value does that has no element of its own around it.
    pub fn set_map_value(&mut self)
        requires
            old(self).wf(),
        ensures
            final(self).wf(),
            final(self)@ == old(self)@,
            final(self).is_map_value(),
    {
        self.is_map_value = true;
    }

    /// Takes the one-shot signal: gives whether it was set, and unsets it.
    pub fn unset_map_value(&mut self) -> (was_set: bool)
        requires
            old(self).wf(),
        ensures
            final(self).wf(),
            final(self)@ == old(self)@,
            !final(self).is_map_value(),
            was_set == old(self).is_map_value(),
    {
        let was_set = self.is_map_value;
        self.is_map_value = false;
        was_set
    }

    /// Consumes one event, which must be the end tag that closes the element
    /// named `start_name`. Every record, sequence item, variant and wrapped
    /// value ends with this check.
    pub fn expect_end_element(&mut self, start_name: Name) -> (result: Result<(), Error>)
        requires
            old(self).wf(),
        ensures
            final(self).wf(),
            final(self).is_map_value() == old(self).is_map_value(),
            match result {
                Ok(_) => old(self)@.expect_end(start_name@) == Ok::<Stream, ErrorView>(final(self)@),
                Err(error) => old(self)@.expect_end(start_name@) == Err::<Stream, ErrorView>(error@),
            },
    {
        let event = self.next()?;
        let matches = match &event {
            Event::EndElement { name } => name.same_as(&start_name),
            _ => false,
        };
        if matches {
            Ok(())
        } else {
            Err(Error::Mismatch { expected: Expected::EndOf(start_name), found: event })
        }
    }

    /// Consumes one event, which must be a start tag, and gives its name and
    /// its attributes.
    pub fn open_element(&mut self) -> (result: Result<(Name, Vec<Attribute>), Error>)
        requires
            old(self).wf(),
        ensures
            final(self).wf(),
            final(self).is_map_value() == old(self).is_map_value(),
            match result {
                Ok((name, attributes)) => old(self)@.open_element() == Ok::<
                    (NameView, Seq<AttributeView>, Stream),
                    ErrorView,
                >((name@, attribute_views(attributes@), final(self)@)),
                Err(error) => old(self)@.open_element() == Err::<
                    (NameView, Seq<AttributeView>, Stream),
                    ErrorView,
                >(error@),
            },
    {
        match self.next()? {
            Event::StartElement { name, attributes } => Ok((name, attributes)),
            other => Err(Error::Mismatch { expected: Expected::StartElement, found: other }),
        }
    }

    /// Enters a value: where it does not stand bare, consumes the start tag
    /// of the element that wraps it and gives that element's name.
    pub fn enter(&mut self, bare: bool) -> (result: Result<Option<Name>, Error>)
        requires
            old(self).wf(),
        ensures
            final(self).wf(),
            final(self).is_map_value() == old(self).is_map_value(),
            match result {
                Ok(wrapper) => model::enter(bare, old(self)@) == Ok::<
                    (Option<NameView>, Stream),
                    ErrorView,
                >((wrapper_view(wrapper), final(self)@)),
                Err(error) => model::enter(bare, old(self)@) == Err::<
                    (Option<NameView>, Stream),
                    ErrorView,
                >(error@),
            },
    {
        if bare {
            Ok(None)
        } else {
            match self.open_element() {
                Ok((name, _)) => Ok(Some(name)),
                Err(error) => Err(error),
            }
        }
    }

    /// Leaves a value: where an element wraps it, consumes the end tag,
    /// which must be that element's.
    pub fn leave(&mut self, wrapper: Option<Name>) -> (result: Result<(), Error>)
        requires
            old(self).wf(),
        ensures
            final(self).wf(),
            final(self).is_map_value() == old(self).is_map_value(),
            match wrapper {
                None => result is Ok && final(self)@ == old(self)@,
                Some(name) => match result {
                    Ok(_) => old(self)@.expect_end(name@) == Ok::<Stream, ErrorView>(final(self)@),
                    Err(error) => old(self)@.expect_end(name@) == Err::<Stream, ErrorView>(error@),
                },
            },
    {
        match wrapper {
            None => Ok(()),
            Some(name) => self.expect_end_element(name),
        }
    }

    /// Reads the text at the cursor: empty before an end tag, which stays;
    /// else the next event, which must be character data.
    pub fn text_content(&mut self) -> (result: Result<String, Error>)
        requires
            old(self).wf(),
        ensures
            final(self).wf(),
            final(self).is_map_value() == old(self).is_map_value(),
            match result {
                Ok(text) => model::text_content(old(self)@) == Ok::<(Seq<char>, Stream), ErrorView>(
                    (text@, final(self)@),
                ),
                Err(error) => model::text_content(old(self)@) == Err::<
                    (Seq<char>, Stream),
                    ErrorView,
                >(error@),
            },
    {
        let at_end = match self.peek() {
            Ok(event) => match event {
                Event::EndElement { .. } => true,
                _ => false,
            },
            Err(error) => {
                return Err(error);
            },
        };
        if at_end {
            return Ok(String::new());
        }
        match self.next() {
            Ok(Event::Characters(text)) => Ok(text),
            Ok(other) => Err(Error::Mismatch { expected: Expected::Characters, found: other }),
            Err(error) => Err(error),
        }
    }

    /// Reads no content: an end tag must stand at the cursor, and stays.
    pub fn unit_content(&mut self) -> (result: Result<Value, Error>)
        requires
            old(self).wf(),
        ensures
            final(self).wf(),
            final(self).is_map_value() == old(self).is_map_value(),
            fulfils(result, final(self)@, model::unit_content(old(self)@)),
    {
        match self.peek() {
            Ok(event) => match event {
                Event::EndElement { .. } => Ok(Value::Unit),
                other => Err(
                    Error::Mismatch { expected: Expected::EndElement, found: other.duplicate() },
                ),
            },
            Err(error) => Err(error),
        }
    }

    /// Passes over what stands at the cursor: consumes events until the
    /// depth is again what it was.
    pub fn skip(&mut self) -> (result: Result<Value, Error>)
        requires
            old(self).wf(),
        ensures
            final(self).wf(),
            final(self).is_map_value() == old(self).is_map_value(),
            fulfils(result, final(self)@, model::skip(old(self)@)),
    {
        let target = self.depth();
        loop
            invariant
                self.wf(),
                self.is_map_value() == old(self).is_map_value(),
                target == old(self)@.depth,
                model::skip_until(target as nat, self@) == model::skip_until(
                    target as nat,
                    old(self)@,
                ),
            decreases self@.tokens.len(),
        {
            match self.next() {
                Ok(_) => {},
                Err(error) => {
                    return Err(error);
                },
            }
            if self.depth() == target {
                return Ok(Value::Unit);
            }
        }
    }

    /// Tells whether a value that may be missing is there: bare it always
    /// is, else it is unless an end tag stands at the cursor. The cursor is
    /// not moved.
    pub fn is_present(&mut self, bare: bool) -> (result: Result<bool, Error>)
        requires
            old(self).wf(),
        ensures
            final(self).wf(),
            final(self)@ == old(self)@,
            final(self).is_map_value() == old(self).is_map_value(),
            match result {
                Ok(present) => model::presence(bare, old(self)@) == Ok::<bool, ErrorView>(present),
                Err(error) => model::presence(bare, old(self)@) == Err::<bool, ErrorView>(error@),
            },
    {
        if bare {
            return Ok(true);
        }
        match self.peek() {
            Ok(event) => match event {
                Event::EndElement { .. } => Ok(false),
                _ => Ok(true),
            },
            Err(error) => Err(error),
        }
    }
}

/// The view of the name of a wrapper, where there is one.
pub open spec fn wrapper_view(wrapper: Option<Name>) -> Option<NameView> {
    match wrapper {
        Some(name) => Some(name@),
        None => None,
    }
}

/// Whether `result`, with the decoder left as `after`, is what `step` says.
pub open spec fn fulfils(result: Result<Value, Error>, after: Stream, step: Step<ValueView>) -> bool {
    match result {
        Ok(value) => step == Ok::<(ValueView, Stream), ErrorView>((value@, after)),
        Err(error) => step == Err::<(ValueView, Stream), ErrorView>(error@),
    }
}

} // verus!
