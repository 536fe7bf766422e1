//! The sequence visitor: it tells whether the run of sibling elements at the
//! cursor goes on.

use vstd::prelude::*;
use crate::de::Deserializer;
use crate::de::fulfils;
use crate::error::Error;
use crate::error::ErrorView;
use crate::event::Event;
use crate::event::EventView;
use crate::model;
use crate::progress::lemma_decode_shrinks;
use crate::shape::Shape;
use crate::value::Value;
use crate::value::ValueView;
use crate::value::lemma_value_views_len;
use crate::value::lemma_value_views_push;
use crate::value::value_views;

verus! {

/// The bookkeeping of one sequence: its size where that is fixed, the tag
/// that its items bear, and for a fixed size the number of items met.
pub struct SequenceVisitor {
    max_size: Option<usize>,
    expected_name: Option<String>,
    count: usize,
}

/// The failure of a sequence whose run has ended after `count` items, if it
/// is one; `more` says that a further item of the run follows.
pub fn check_length(len: Option<usize>, count: usize, more: bool) -> (result: Result<(), Error>)
    ensures
        match result {
            Ok(_) => model::length_check(len, count as nat, more) is None,
            Err(error) => model::length_check(len, count as nat, more) == Some(error@),
        },
{
    match len {
        Some(n) => if count != n || more {
            Err(Error::LengthMismatch { size: n, items: count })
        } else {
            Ok(())
        },
        None => Ok(()),
    }
}

impl SequenceVisitor {
    /// The size of the sequence, where it is fixed.
    pub closed spec fn len(&self) -> Option<usize> {
        self.max_size
    }

    /// The local name that the items bear; `None` where the run is empty
    /// because no start tag stood at the cursor.
    pub closed spec fn tag(&self) -> Option<Seq<char>> {
        match self.expected_name {
            Some(name) => Some(name@),
            None => None,
        }
    }

    /// For a fixed size, the number of items met so far; else 0.
    pub closed spec fn count(&self) -> nat {
        self.count as nat
    }

    /// Whether `event` is the start tag of a further item.
    pub open spec fn follows(&self, event: EventView) -> bool {
        self.tag() matches Some(tag) && model::claims(event, tag)
    }

    /// The invariant of a visitor: for a fixed size, no more items are
    /// counted than the size; without one, none is counted.
    pub closed spec fn wf(&self) -> bool {
        match self.max_size {
            Some(n) => self.count <= n,
            None => self.count == 0,
        }
    }

    /// The visitor of the run that starts at the cursor: its items bear the
    /// tag of the start tag that stands there. The cursor is not moved.
    pub fn new(de: &mut Deserializer, max_size: Option<usize>) -> (result: Result<Self, Error>)
        requires
            old(de).wf(),
        ensures
            final(de).wf(),
            final(de)@ == old(de)@,
            final(de).is_map_value() == old(de).is_map_value(),
            match old(de)@.peek() {
                Err(error) => result matches Err(e) && e@ == error,
                Ok(event) => {
                    &&& result matches Ok(visitor)
                    &&& visitor.wf()
                    &&& visitor.len() == max_size
                    &&& visitor.count() == 0
                    &&& visitor.tag() == match event {
                        EventView::StartElement { name, .. } => Some(name.local_name),
                        _ => None,
                    }
                },
            },
    {
        let expected_name = match de.peek() {
            Ok(event) => match event {
                Event::StartElement { name, .. } => Some(name.local_name.clone()),
                _ => None,
            },
            Err(error) => {
                return Err(error);
            },
        };
        Ok(SequenceVisitor { max_size, expected_name, count: 0 })
    }

    /// Whether a start tag of the run follows at the cursor. The cursor is
    /// not moved.
    pub fn item_follows(&self, de: &mut Deserializer) -> (result: Result<bool, Error>)
        requires
            old(de).wf(),
        ensures
            final(de).wf(),
            final(de)@ == old(de)@,
            final(de).is_map_value() == old(de).is_map_value(),
            match old(de)@.peek() {
                Err(error) => result matches Err(e) && e@ == error,
                Ok(event) => result == Ok::<bool, Error>(self.follows(event)),
            },
    {
        match de.peek() {
            Ok(event) => match event {
                Event::StartElement { name, .. } => match &self.expected_name {
                    Some(expected) => Ok(name.local_name == *expected),
                    None => Ok(false),
                },
                _ => Ok(false),
            },
            Err(error) => Err(error),
        }
    }

    /// Whether another item is to be decoded: one follows at the cursor and,
    /// for a fixed size, one is still owed. Such an item is counted. The
    /// cursor is not moved.
    pub fn more(&mut self, de: &mut Deserializer) -> (result: Result<bool, Error>)
        requires
            old(de).wf(),
            old(self).wf(),
        ensures
            final(de).wf(),
            final(de)@ == old(de)@,
            final(de).is_map_value() == old(de).is_map_value(),
            final(self).wf(),
            final(self).len() == old(self).len(),
            final(self).tag() == old(self).tag(),
            match old(de)@.peek() {
                Err(error) => result matches Err(e) && e@ == error,
                Ok(event) => {
                    let more = old(self).follows(event) && model::owed(
                        old(self).len(),
                        old(self).count(),
                    );
                    &&& result == Ok::<bool, Error>(more)
                    &&& final(self).count() == if more && old(self).len() is Some {
                        old(self).count() + 1
                    } else {
                        old(self).count()
                    }
                },
            },
    {
        let follows = self.item_follows(de)?;
        match self.max_size {
            Some(n) => {
                if follows && self.count < n {
                    self.count = self.count + 1;
                    Ok(true)
                } else {
                    Ok(false)
                }
            },
            None => Ok(follows),
        }
    }

    /// Ends the run: a sequence of fixed size must have met exactly its
    /// number of items, with no further item behind them. The cursor is not
    /// moved.
    pub fn finish(&self, de: &mut Deserializer) -> (result: Result<(), Error>)
        requires
            old(de).wf(),
        ensures
            final(de).wf(),
            final(de)@ == old(de)@,
            final(de).is_map_value() == old(de).is_map_value(),
            match old(de)@.peek() {
                Err(error) => result matches Err(e) && e@ == error,
                Ok(event) => match model::length_check(
                    self.len(),
                    self.count(),
                    self.follows(event),
                ) {
                    Some(error) => result matches Err(e) && e@ == error,
                    None => result is Ok,
                },
            },
    {
        let follows = self.item_follows(de)?;
        check_length(self.max_size, self.count, follows)
    }
}

/// The value of a sequence whose run has ended with the items `items`;
/// `more` says that a further item of the run follows.
pub fn finish_items(len: Option<usize>, items: Vec<Value>, more: bool) -> (result: Result<
    Value,
    Error,
>)
    ensures
        match result {
            Ok(value) => model::finish_items(len, value_views(items@), more) == Ok::<
                ValueView,
                ErrorView,
            >(value@),
            Err(error) => model::finish_items(len, value_views(items@), more) == Err::<
                ValueView,
                ErrorView,
            >(error@),
        },
{
    proof {
        lemma_value_views_len(items@);
    }
    match len {
        Some(n) => if items.len() != n || more {
            Err(Error::LengthMismatch { size: n, items: items.len() })
        } else {
            Ok(Value::List(items))
        },
        None => Ok(Value::List(items)),
    }
}

impl<'a> Deserializer<'a> {
    /// Decodes a sequence: inside its wrapper, unless it stands bare, a run
    /// of sibling elements.
    pub fn sequence(&mut self, item: &Shape, len: Option<usize>, bare: bool) -> (result: Result<
        Value,
        Error,
    >)
        requires
            old(self).wf(),
        ensures
            final(self).wf(),
            final(self).is_map_value() == old(self).is_map_value(),
            fulfils(result, final(self)@, model::sequence(*item, len, bare, old(self)@)),
        decreases item, 4nat, 0nat,
    {
        let wrapper = self.enter(bare)?;
        let value = self.run(item, len)?;
        self.leave(wrapper)?;
        Ok(value)
    }

    /// Decodes the run of sibling elements that bear the tag of the one at
    /// the cursor, each as an item.
    pub fn run(&mut self, item: &Shape, len: Option<usize>) -> (result: Result<Value, Error>)
        requires
            old(self).wf(),
        ensures
            final(self).wf(),
            final(self).is_map_value() == old(self).is_map_value(),
            fulfils(result, final(self)@, model::run(*item, len, old(self)@)),
        decreases item, 3nat, 0nat,
    {
        let mut visitor = SequenceVisitor::new(self, len)?;
        let mut done: Vec<Value> = Vec::new();
        loop
            invariant
                self.wf(),
                self.is_map_value() == old(self).is_map_value(),
                visitor.wf(),
                visitor.len() == len,
                len is Some ==> visitor.count() == done.len(),
                match visitor.tag() {
                    Some(tag) => model::items(*item, len, tag, self@, value_views(done@))
                        == model::run(*item, len, old(self)@),
                    None => {
                        &&& done.len() == 0
                        &&& self@ == old(self)@
                        &&& self@.tokens.len() > 0
                        &&& !self@.at_start()
                    },
                },
            decreases self@.tokens.len(),
        {
            proof {
                lemma_value_views_len(done@);
            }
            if !visitor.more(self)? {
                visitor.finish(self)?;
                return Ok(Value::List(done));
            }
            let ghost before = self@;
            let value = match self.decode(item, false) {
                Ok(value) => value,
                Err(error) => {
                    return Err(error);
                },
            };
            proof {
                lemma_decode_shrinks(*item, false, before);
                lemma_value_views_push(done@, value);
            }
            done.push(value);
        }
    }
}

} // verus!
