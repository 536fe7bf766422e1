//! Laws of elements: an element without content is a unit, and an element
//! that is ignored is passed over whole.

use vstd::prelude::*;
use crate::error::ErrorView;
use crate::event::AttributeView;
use crate::event::EventView;
use crate::event::NameView;
use crate::model;
use crate::shape::Shape;
use crate::stream::Stream;
use crate::value::ValueView;

verus! {

/// The stream `s` with its first `n` events consumed and its depth as it
/// was.
pub open spec fn behind(s: Stream, n: nat) -> Stream {
    Stream { tokens: s.tokens.skip(n as int), closing: s.closing, depth: s.depth }
}

/// An element without content decodes as a unit, and exactly its start tag
/// and its end tag are consumed: the cursor stands behind the pair, at the
/// depth that it had.
pub proof fn lemma_empty_element_is_unit(s: Stream, name: NameView, attributes: Seq<AttributeView>)
    requires
        s.tokens.len() >= 2,
        s.tokens[0] == (EventView::StartElement { name, attributes }),
        s.tokens[1] == (EventView::EndElement { name }),
        s.depth < usize::MAX,
    ensures
        model::decode(Shape::Unit, false, s) == Ok::<(ValueView, Stream), ErrorView>(
            (ValueView::Unit, behind(s, 2)),
        ),
{
    let inner = s.rest(s.depth + 1);
    assert(s.open_element() == Ok::<(NameView, Seq<AttributeView>, Stream), ErrorView>(
        (name, attributes, inner),
    ));
    assert(inner.tokens[0] == s.tokens[1]);
    assert(inner.rest(s.depth).tokens =~= s.tokens.skip(2));
    assert(inner.expect_end(name) == Ok::<Stream, ErrorView>(behind(s, 2)));
}

/// Whether the first `n` events of `tokens` close `level` open elements with
/// their last event and not before, while never more than `room` elements
/// are open.
pub open spec fn closes(tokens: Seq<EventView>, level: nat, n: nat, room: nat) -> bool
    decreases n,
{
    n > 0 && tokens.len() > 0 && level > 0 && match tokens[0] {
        EventView::StartElement { .. } => level < room && closes(
            tokens.skip(1),
            level + 1,
            (n - 1) as nat,
            room,
        ),
        EventView::EndElement { .. } => if level == 1 {
            n == 1
        } else {
            closes(tokens.skip(1), (level - 1) as nat, (n - 1) as nat, room)
        },
        _ => closes(tokens.skip(1), level, (n - 1) as nat, room),
    }
}

/// Whether the first `n` events of `tokens` are one whole element: a start
/// tag, what it holds at any depth of nesting, and the end tag that closes
/// it; and the element nests no deeper than `room` levels, its own
/// included.
pub open spec fn is_element(tokens: Seq<EventView>, n: nat, room: nat) -> bool {
    n > 0 && tokens.len() > 0 && tokens[0] is StartElement && 0 < room && closes(
        tokens.skip(1),
        1,
        (n - 1) as nat,
        room,
    )
}

/// Skipping down to the depth `target` consumes exactly the events that close
/// the elements open above it, as long as the depth can be counted.
pub proof fn lemma_skip_until_closes(target: nat, s: Stream, level: nat, n: nat)
    requires
        target <= usize::MAX,
        closes(s.tokens, level, n, (usize::MAX - target) as nat),
        s.depth == target + level,
    ensures
        n <= s.tokens.len(),
        model::skip_until(target, s) == Ok::<(ValueView, Stream), ErrorView>(
            (
                ValueView::Unit,
                Stream { tokens: s.tokens.skip(n as int), closing: s.closing, depth: target },
            ),
        ),
    decreases n,
{
    let up = s.rest(s.depth + 1);
    let down = s.rest((s.depth - 1) as nat);
    let level_with = s.rest(s.depth);
    match s.tokens[0] {
        EventView::StartElement { .. } => {
            lemma_skip_until_closes(target, up, level + 1, (n - 1) as nat);
            assert(up.tokens.skip(n - 1) =~= s.tokens.skip(n as int));
        },
        EventView::EndElement { .. } => {
            if level == 1 {
                assert(down.tokens =~= s.tokens.skip(n as int));
            } else {
                lemma_skip_until_closes(target, down, (level - 1) as nat, (n - 1) as nat);
                assert(down.tokens.skip(n - 1) =~= s.tokens.skip(n as int));
            }
        },
        _ => {
            lemma_skip_until_closes(target, level_with, level, (n - 1) as nat);
            assert(level_with.tokens.skip(n - 1) =~= s.tokens.skip(n as int));
        },
    }
}

/// Ignoring an element leaves the cursor behind its end tag, at the depth
/// that it had, however deep the element nests, as long as the depth can be
/// counted: the cursor stands at what follows the element.
pub proof fn lemma_ignore_skips_element(s: Stream, n: nat)
    requires
        s.depth <= usize::MAX,
        is_element(s.tokens, n, (usize::MAX - s.depth) as nat),
    ensures
        n <= s.tokens.len(),
        model::decode(Shape::Ignore, false, s) == Ok::<(ValueView, Stream), ErrorView>(
            (ValueView::Unit, behind(s, n)),
        ),
        model::decode(Shape::Ignore, true, s) == model::decode(Shape::Ignore, false, s),
{
    let inner = s.rest(s.depth + 1);
    lemma_skip_until_closes(s.depth, inner, 1, (n - 1) as nat);
    assert(inner.tokens.skip(n - 1) =~= s.tokens.skip(n as int));
}

/// Ignoring character data consumes that one event.
pub proof fn lemma_ignore_skips_text(s: Stream, text: Seq<char>)
    requires
        s.tokens.len() > 0,
        s.tokens[0] == EventView::Characters(text),
    ensures
        model::decode(Shape::Ignore, false, s) == Ok::<(ValueView, Stream), ErrorView>(
            (ValueView::Unit, behind(s, 1)),
        ),
{
}

} // verus!
