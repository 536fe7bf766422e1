//! The mathematical model of a token cursor: the events still to come, how
//! the stream ends, and how deep the cursor stands in open elements.

use vstd::prelude::*;
use crate::error::ErrorView;
use crate::error::ExpectedView;
use crate::event::AttributeView;
use crate::event::EventView;
use crate::event::NameView;
use crate::source::tokenized;

verus! {

/// The events of `raw` that carry content: declarations, processing
/// instructions and comments are left out.
pub open spec fn content(raw: Seq<EventView>) -> Seq<EventView>
    decreases raw.len(),
{
    if raw.len() == 0 {
        Seq::empty()
    } else if raw[0].is_skipped() {
        content(raw.skip(1))
    } else {
        seq![raw[0]] + content(raw.skip(1))
    }
}

/// The failure met by reading on once the events are used up: the
/// tokenizer's failure where it ended with one, else the end of the stream.
pub open spec fn closing(ending: Option<Seq<char>>) -> ErrorView {
    match ending {
        Some(message) => ErrorView::Syntax(message),
        None => ErrorView::end_of_stream(),
    }
}

/// A cursor as a value: the content events not yet consumed, the failure
/// that follows them, and the number of start tags consumed whose end tags
/// are still to come.
pub struct Stream {
    pub tokens: Seq<EventView>,
    pub closing: ErrorView,
    pub depth: nat,
}

impl Stream {
    /// The next event, which stays in the stream.
    pub open spec fn peek(self) -> Result<EventView, ErrorView> {
        if self.tokens.len() == 0 {
            Err(self.closing)
        } else {
            Ok(self.tokens[0])
        }
    }

    /// Whether a start tag stands at the cursor.
    pub open spec fn at_start(self) -> bool {
        self.tokens.len() > 0 && self.tokens[0] is StartElement
    }

    /// The stream after its first event, whatever that event is.
    pub open spec fn rest(self, depth: nat) -> Stream {
        Stream { tokens: self.tokens.skip(1), closing: self.closing, depth }
    }

    /// The next event and the stream behind it. A start tag raises the depth
    /// by one, an end tag lowers it by one where an element is open.
    pub open spec fn next(self) -> Result<(EventView, Stream), ErrorView> {
        if self.tokens.len() == 0 {
            Err(self.closing)
        } else {
            let event = self.tokens[0];
            match event {
                EventView::StartElement { .. } => if self.depth >= usize::MAX {
                    Err(ErrorView::nesting_limit())
                } else {
                    Ok((event, self.rest(self.depth + 1)))
                },
                EventView::EndElement { .. } => if self.depth == 0 {
                    Ok((event, self.rest(0)))
                } else {
                    Ok((event, self.rest((self.depth - 1) as nat)))
                },
                _ => Ok((event, self.rest(self.depth))),
            }
        }
    }

    /// Consumes one event, which must be the end tag of `name`.
    pub open spec fn expect_end(self, name: NameView) -> Result<Stream, ErrorView> {
        match self.next() {
            Err(error) => Err(error),
            Ok((event, rest)) => match event {
                EventView::EndElement { name: found } if found == name => Ok(rest),
                _ => Err(ErrorView::Mismatch { expected: ExpectedView::EndOf(name), found: event }),
            },
        }
    }

    /// Consumes one event, which must be a start tag, and gives its name and
    /// attributes.
    pub open spec fn open_element(self) -> Result<(NameView, Seq<AttributeView>, Stream), ErrorView> {
        match self.next() {
            Err(error) => Err(error),
            Ok((event, rest)) => match event {
                EventView::StartElement { name, attributes } => Ok((name, attributes, rest)),
                _ => Err(ErrorView::Mismatch { expected: ExpectedView::StartElement, found: event }),
            },
        }
    }
}

/// The stream of a whole document under the default normalization, read
/// from its start.
pub open spec fn document(bytes: Seq<u8>) -> Stream {
    let (events, ending) = tokenized(bytes, true, true, true, true, true);
    Stream { tokens: content(events), closing: closing(ending), depth: 0 }
}

} // verus!
