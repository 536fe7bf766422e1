//! What decoding means: for each shape, the value that a stream of events
//! decodes to and the stream that is left, or the failure. The executable
//! decoder is proved to compute exactly these functions.

use vstd::prelude::*;
use crate::error::ErrorView;
use crate::error::ExpectedView;
use crate::event::AttributeView;
use crate::event::EventView;
use crate::event::NameView;
use crate::scalar::ScalarKind;
use crate::scalar::convert;
use crate::shape::Case;
use crate::shape::Field;
use crate::shape::Shape;
use crate::stream::Stream;
use crate::value::EntryView;
use crate::value::ValueView;

verus! {

/// The result of a decoding step: a value and the stream behind it, or the
/// failure that ends the decode.
pub type Step<V> = Result<(V, Stream), ErrorView>;

/// The key under which an element decoded without a declared shape holds
/// its character data.
pub open spec fn text_key() -> Seq<char> {
    "$value"@
}

/// Enters a value: nothing where it stands bare, else the start tag of the
/// element that wraps it, whose name is kept for `leave`.
pub open spec fn enter(bare: bool, s: Stream) -> Step<Option<NameView>> {
    if bare {
        Ok((None, s))
    } else {
        match s.open_element() {
            Err(error) => Err(error),
            Ok((name, _, rest)) => Ok((Some(name), rest)),
        }
    }
}

/// Leaves a value: where an element wraps it, its end tag must follow.
pub open spec fn leave<V>(wrapper: Option<NameView>, inner: Step<V>) -> Step<V> {
    match inner {
        Err(error) => Err(error),
        Ok((value, s)) => match wrapper {
            None => Ok((value, s)),
            Some(name) => match s.expect_end(name) {
                Err(error) => Err(error),
                Ok(rest) => Ok((value, rest)),
            },
        },
    }
}

/// The text at the cursor: empty before an end tag, which stays; else the
/// next event, which must be character data.
pub open spec fn text_content(s: Stream) -> Step<Seq<char>> {
    match s.peek() {
        Err(error) => Err(error),
        Ok(EventView::EndElement { .. }) => Ok((Seq::empty(), s)),
        Ok(_) => match s.next() {
            Err(error) => Err(error),
            Ok((EventView::Characters(text), rest)) => Ok((text, rest)),
            Ok((other, _)) => Err(
                ErrorView::Mismatch { expected: ExpectedView::Characters, found: other },
            ),
        },
    }
}

/// The text of a value, wrapped in an element unless it stands bare.
pub open spec fn text_value(bare: bool, s: Stream) -> Step<Seq<char>> {
    match enter(bare, s) {
        Err(error) => Err(error),
        Ok((wrapper, inner)) => leave(wrapper, text_content(inner)),
    }
}

/// A scalar at the cursor: its text, converted.
pub open spec fn scalar_content(kind: ScalarKind, s: Stream) -> Step<ValueView> {
    match text_content(s) {
        Err(error) => Err(error),
        Ok((text, rest)) => match convert(kind, text) {
            Err(error) => Err(error),
            Ok(value) => Ok((value, rest)),
        },
    }
}

/// No content: an end tag must stand at the cursor, and stays.
pub open spec fn unit_content(s: Stream) -> Step<ValueView> {
    match s.peek() {
        Err(error) => Err(error),
        Ok(EventView::EndElement { .. }) => Ok((ValueView::Unit, s)),
        Ok(other) => Err(
            ErrorView::Mismatch { expected: ExpectedView::EndElement, found: other },
        ),
    }
}

/// Consumes events until the depth is `target` again.
pub open spec fn skip_until(target: nat, s: Stream) -> Step<ValueView>
    decreases s.tokens.len(),
{
    match s.next() {
        Err(error) => Err(error),
        Ok((_, rest)) => if rest.depth == target {
            Ok((ValueView::Unit, rest))
        } else {
            skip_until(target, rest)
        },
    }
}

/// Passes over what stands at the cursor: one event, and with a start tag
/// the whole element that it opens.
pub open spec fn skip(s: Stream) -> Step<ValueView> {
    skip_until(s.depth, s)
}

/// The attributes of an element as entries, each under its local name.
pub open spec fn attribute_entries(attributes: Seq<AttributeView>) -> Seq<EntryView> {
    Seq::new(
        attributes.len(),
        |i: int|
            EntryView {
                key: attributes[i].name.local_name,
                value: ValueView::Str(attributes[i].value),
            },
    )
}

/// What stands at the cursor, decoded as the document shapes it: a start
/// tag opens an element, an end tag means no value and stays, anything else
/// must be character data.
pub open spec fn any(s: Stream) -> Step<ValueView>
    decreases s.tokens.len(), 1nat,
{
    match s.peek() {
        Err(error) => Err(error),
        Ok(EventView::StartElement { .. }) => element(s),
        Ok(EventView::EndElement { .. }) => Ok((ValueView::Unit, s)),
        Ok(_) => match s.next() {
            Err(error) => Err(error),
            Ok((EventView::Characters(text), rest)) => Ok((ValueView::Str(text), rest)),
            Ok((other, _)) => Err(
                ErrorView::Mismatch { expected: ExpectedView::Characters, found: other },
            ),
        },
    }
}

/// An element decoded without a declared shape: its attributes, then its
/// children in document order, then its end tag.
pub open spec fn element(s: Stream) -> Step<ValueView>
    decreases s.tokens.len(), 0nat,
{
    match s.open_element() {
        Err(error) => Err(error),
        Ok((name, attributes, inner)) => match children(inner, attribute_entries(attributes)) {
            Err(error) => Err(error),
            Ok((entries, behind)) => match behind.expect_end(name) {
                Err(error) => Err(error),
                Ok(rest) => Ok((ValueView::Element(entries), rest)),
            },
        },
    }
}

/// The children of an element decoded without a declared shape, added to
/// `entries`: each child element under its local name, character data under
/// `text_key()`; the run ends before anything else. A child element is
/// always consumed (`progress::lemma_any_shrinks`), so the branch that
/// meets a stream no shorter is never taken: it is there for the definition
/// to be well-founded.
pub open spec fn children(s: Stream, entries: Seq<EntryView>) -> Step<Seq<EntryView>>
    decreases s.tokens.len(), 2nat,
{
    match s.peek() {
        Err(error) => Err(error),
        Ok(EventView::StartElement { name, .. }) => match any(s) {
            Err(error) => Err(error),
            Ok((value, rest)) => if rest.tokens.len() < s.tokens.len() {
                children(rest, entries.push(EntryView { key: name.local_name, value }))
            } else {
                Err(ErrorView::nesting_limit())
            },
        },
        Ok(EventView::Characters(text)) => children(
            s.rest(s.depth),
            entries.push(EntryView { key: text_key(), value: ValueView::Str(text) }),
        ),
        Ok(_) => Ok((entries, s)),
    }
}

/// The place of the first attribute at or after `from` whose local name is
/// `name`.
pub open spec fn find_attribute(pool: Seq<AttributeView>, name: Seq<char>, from: nat) -> Option<nat>
    decreases pool.len() - from,
{
    if from >= pool.len() {
        None
    } else if pool[from as int].name.local_name == name {
        Some(from)
    } else {
        find_attribute(pool, name, from + 1)
    }
}

/// Whether `event` is the start tag of a child that holds the field or the
/// item named `name`.
pub open spec fn claims(event: EventView, name: Seq<char>) -> bool {
    event matches EventView::StartElement { name: tag, .. } && tag.local_name == name
}

/// A value that may be missing, found present.
pub open spec fn present(inner: Step<ValueView>) -> Step<ValueView> {
    match inner {
        Err(error) => Err(error),
        Ok((value, rest)) => Ok((ValueView::Present(Box::new(value)), rest)),
    }
}

/// The failure of a sequence whose run has ended after `count` items, if
/// it is one; `more` says that a further item of the run follows. A
/// sequence of fixed size must have met exactly its number of items.
pub open spec fn length_check(len: Option<usize>, count: nat, more: bool) -> Option<ErrorView> {
    match len {
        Some(n) if count != n || more => Some(
            ErrorView::LengthMismatch { size: n as nat, items: count },
        ),
        _ => None,
    }
}

/// The value of a sequence whose run has ended with the items `items`;
/// `more` says that a further item of the run follows.
pub open spec fn finish_items(len: Option<usize>, items: Seq<ValueView>, more: bool) -> Result<
    ValueView,
    ErrorView,
> {
    match length_check(len, items.len(), more) {
        Some(error) => Err(error),
        None => Ok(ValueView::List(items)),
    }
}

/// Whether a sequence that has met `count` items may take one more.
pub open spec fn owed(len: Option<usize>, count: nat) -> bool {
    match len {
        Some(n) => count < n,
        None => true,
    }
}

/// Where the value of a field is found.
pub enum SourceView {
    /// In the attribute at this place of the pool.
    Attribute(nat),
    /// In the children at the cursor, the first of which bears its name.
    Child,
    /// Nowhere: this event stands at the cursor.
    Missing(EventView),
}

/// Where the field named `name` is found: in the first attribute of its
/// name; failing that, in the next child where it bears the name; failing
/// that, nowhere.
pub open spec fn resolve(pool: Seq<AttributeView>, name: Seq<char>, s: Stream) -> Result<
    SourceView,
    ErrorView,
> {
    match find_attribute(pool, name, 0) {
        Some(place) => Ok(SourceView::Attribute(place)),
        None => match s.peek() {
            Err(error) => Err(error),
            Ok(event) => if claims(event, name) {
                Ok(SourceView::Child)
            } else {
                Ok(SourceView::Missing(event))
            },
        },
    }
}

/// Whether a value that may be missing is there: bare it always is, else it
/// is unless an end tag stands at the cursor.
pub open spec fn presence(bare: bool, s: Stream) -> Result<bool, ErrorView> {
    if bare {
        Ok(true)
    } else {
        match s.peek() {
            Err(error) => Err(error),
            Ok(EventView::EndElement { .. }) => Ok(false),
            Ok(_) => Ok(true),
        }
    }
}

/// The place of the first case at or after `from` that bears the name
/// `tag`.
pub open spec fn find_case(cases: Seq<Case>, tag: Seq<char>, from: nat) -> Option<nat>
    decreases cases.len() - from,
{
    if from >= cases.len() {
        None
    } else if cases[from as int].name@ == tag {
        Some(from)
    } else {
        find_case(cases, tag, from + 1)
    }
}

/// The value that the text of an attribute decodes to. The text stands for
/// character data at a bare position: a scalar converts it, an optional
/// value is present, and a shape that asks for an element meets a mismatch.
pub open spec fn decode_text(shape: Shape, text: Seq<char>) -> Result<ValueView, ErrorView>
    decreases shape,
{
    match shape {
        Shape::Scalar(kind) => convert(kind, text),
        Shape::Optional(inner) => match decode_text(*inner, text) {
            Err(error) => Err(error),
            Ok(value) => Ok(ValueView::Present(Box::new(value))),
        },
        Shape::Ignore => Ok(ValueView::Unit),
        Shape::Any => Ok(ValueView::Str(text)),
        Shape::Unit => Err(
            ErrorView::Mismatch {
                expected: ExpectedView::EndElement,
                found: EventView::Characters(text),
            },
        ),
        _ => Err(
            ErrorView::Mismatch {
                expected: ExpectedView::StartElement,
                found: EventView::Characters(text),
            },
        ),
    }
}

/// The value of a field that neither an attribute nor the next child holds:
/// an optional value is missing, a sequence is an empty run, and any other
/// shape finds `found` where the field's start tag had to stand.
pub open spec fn missing(field: Field, found: EventView) -> Result<ValueView, ErrorView> {
    match field.shape {
        Shape::Optional(_) => Ok(ValueView::Absent),
        Shape::Sequence { len, .. } => finish_items(len, Seq::empty(), false),
        _ => Err(ErrorView::Mismatch { expected: ExpectedView::Field(field.name@), found }),
    }
}

/// The value of shape `shape` at the cursor. Where `bare` is unset, a unit,
/// a scalar, a sequence and a variant stand inside an element of their own,
/// which is consumed with them.
pub open spec fn decode(shape: Shape, bare: bool, s: Stream) -> Step<ValueView>
    decreases shape, 1nat, 0nat,
{
    match shape {
        Shape::Unit => unit(bare, s),
        Shape::Scalar(kind) => scalar(kind, bare, s),
        Shape::Optional(inner) => optional(*inner, bare, s),
        Shape::Sequence { item, len } => sequence(*item, len, bare, s),
        Shape::Record { fields: declared, catch_all } => record(declared@, catch_all, s),
        Shape::Variant { cases } => variant(cases@, bare, s),
        Shape::Ignore => skip(s),
        Shape::Any => any(s),
    }
}

/// An element without content: inside its wrapper, unless it stands bare,
/// an end tag must follow at once.
pub open spec fn unit(bare: bool, s: Stream) -> Step<ValueView> {
    match enter(bare, s) {
        Err(error) => Err(error),
        Ok((wrapper, inner)) => leave(wrapper, unit_content(inner)),
    }
}

/// A scalar of kind `kind`: the text inside its wrapper, or at the cursor
/// where it stands bare, converted before the wrapper is closed.
pub open spec fn scalar(kind: ScalarKind, bare: bool, s: Stream) -> Step<ValueView> {
    match enter(bare, s) {
        Err(error) => Err(error),
        Ok((wrapper, inner)) => leave(wrapper, scalar_content(kind, inner)),
    }
}

/// A value that may be missing. Bare, it is present. Else it is missing
/// where an end tag stands at the cursor, which stays, and present
/// otherwise; the value itself is decoded from the same position.
pub open spec fn optional(inner: Shape, bare: bool, s: Stream) -> Step<ValueView>
    decreases inner, 2nat, 0nat,
{
    match presence(bare, s) {
        Err(error) => Err(error),
        Ok(false) => Ok((ValueView::Absent, s)),
        Ok(true) => present(decode(inner, bare, s)),
    }
}

/// A sequence: inside its wrapper, unless it stands bare, a run of sibling
/// elements.
pub open spec fn sequence(item: Shape, len: Option<usize>, bare: bool, s: Stream) -> Step<
    ValueView,
>
    decreases item, 4nat, 0nat,
{
    match enter(bare, s) {
        Err(error) => Err(error),
        Ok((wrapper, inner)) => leave(wrapper, run(item, len, inner)),
    }
}

/// The run of sibling elements that bear the tag of the one at the cursor,
/// each decoded as an item. Where no start tag stands at the cursor the run
/// is empty.
pub open spec fn run(item: Shape, len: Option<usize>, s: Stream) -> Step<ValueView>
    decreases item, 3nat, 0nat,
{
    match s.peek() {
        Err(error) => Err(error),
        Ok(EventView::StartElement { name, .. }) => items(item, len, name.local_name, s, Seq::empty()),
        Ok(_) => match finish_items(len, Seq::empty(), false) {
            Err(error) => Err(error),
            Ok(value) => Ok((value, s)),
        },
    }
}

/// The items of a sequence from the cursor on, added to `done`: the run
/// goes on while a start tag with the local name `tag` follows and, for a
/// fixed size, items are still owed. An item is always consumed
/// (`progress::lemma_items_shrink`), so the branch that meets a stream no
/// shorter is never taken: it is there for the definition to be
/// well-founded.
pub open spec fn items(
    item: Shape,
    len: Option<usize>,
    tag: Seq<char>,
    s: Stream,
    done: Seq<ValueView>,
) -> Step<ValueView>
    decreases item, 2nat, s.tokens.len(),
{
    match s.peek() {
        Err(error) => Err(error),
        Ok(event) => {
            let more = claims(event, tag);
            if more && owed(len, done.len()) {
                match decode(item, false, s) {
                    Err(error) => Err(error),
                    Ok((value, rest)) => if rest.tokens.len() < s.tokens.len() {
                        items(item, len, tag, rest, done.push(value))
                    } else {
                        Err(ErrorView::nesting_limit())
                    },
                }
            } else {
                match finish_items(len, done, more) {
                    Err(error) => Err(error),
                    Ok(value) => Ok((value, s)),
                }
            }
        },
    }
}

/// A record: one element, whose attributes and children hold the fields,
/// and whose end tag must follow the last of them.
pub open spec fn record(declared: Seq<Field>, catch_all: bool, s: Stream) -> Step<ValueView>
    decreases declared, 1nat, 0nat,
{
    match s.open_element() {
        Err(error) => Err(error),
        Ok((name, attributes, inner)) => leave(
            Some(name),
            fields(declared, catch_all, 0, attributes, inner, Seq::empty()),
        ),
    }
}

/// The value of a field held by the children at the cursor, the first of
/// which bears the field's name: a sequence is the run of those children,
/// any other shape stands inside the first of them.
pub open spec fn field_value(shape: Shape, s: Stream) -> Step<ValueView>
    decreases shape, 5nat, 0nat,
{
    match shape {
        Shape::Sequence { item, len } => run(*item, len, s),
        _ => decode(shape, false, s),
    }
}

/// The fields of a record from field `at` on, added to `done`, inside an
/// element whose attributes not yet used are `pool`. A field takes the
/// first attribute of its name, which leaves the pool; failing that, the
/// next child where it bears the field's name; failing that, it is missing.
/// Behind the last field a catch-all absorbs what `any` finds.
pub open spec fn fields(
    declared: Seq<Field>,
    catch_all: bool,
    at: nat,
    pool: Seq<AttributeView>,
    s: Stream,
    done: Seq<ValueView>,
) -> Step<ValueView>
    decreases declared, 0nat, declared.len() - at,
{
    if at >= declared.len() {
        if catch_all {
            match any(s) {
                Err(error) => Err(error),
                Ok((value, rest)) => Ok((ValueView::Record(done.push(value)), rest)),
            }
        } else {
            Ok((ValueView::Record(done), s))
        }
    } else {
        let field = declared[at as int];
        match resolve(pool, field.name@, s) {
            Err(error) => Err(error),
            Ok(SourceView::Attribute(place)) => match decode_text(
                field.shape,
                pool[place as int].value,
            ) {
                Err(error) => Err(error),
                Ok(value) => fields(
                    declared,
                    catch_all,
                    at + 1,
                    pool.remove(place as int),
                    s,
                    done.push(value),
                ),
            },
            Ok(SourceView::Child) => match field_value(field.shape, s) {
                Err(error) => Err(error),
                Ok((value, rest)) => fields(declared, catch_all, at + 1, pool, rest, done.push(value)),
            },
            Ok(SourceView::Missing(event)) => match missing(field, event) {
                Err(error) => Err(error),
                Ok(value) => fields(declared, catch_all, at + 1, pool, s, done.push(value)),
            },
        }
    }
}

/// A variant: inside its wrapper, unless it stands bare, one element whose
/// tag selects the case, whose content is the payload, and whose end tag
/// must follow.
pub open spec fn variant(cases: Seq<Case>, bare: bool, s: Stream) -> Step<ValueView>
    decreases cases, 2nat, 0nat,
{
    match enter(bare, s) {
        Err(error) => Err(error),
        Ok((wrapper, inner)) => leave(wrapper, variant_content(cases, inner)),
    }
}

/// The element of a variant: its tag selects the first case of that name,
/// its content is the payload of the case, its end tag must follow. A tag
/// that no case bears is an unknown variant.
pub open spec fn variant_content(cases: Seq<Case>, s: Stream) -> Step<ValueView>
    decreases cases, 1nat, 0nat,
{
    match s.open_element() {
        Err(error) => Err(error),
        Ok((tag, attributes, inner)) => match find_case(cases, tag.local_name, 0) {
            Some(at) if at < cases.len() => leave(
                Some(tag),
                tagged(at, payload(cases[at as int].payload, attributes, inner)),
            ),
            _ => Err(ErrorView::UnknownVariant(tag.local_name)),
        },
    }
}

/// The payload of the case at place `at`, as a variant.
pub open spec fn tagged(at: nat, inner: Step<ValueView>) -> Step<ValueView> {
    match inner {
        Err(error) => Err(error),
        Ok((value, rest)) => Ok((ValueView::Variant(at, Box::new(value)), rest)),
    }
}

/// The payload of a case inside the case's element, whose start tag is
/// consumed: a record takes the attributes of that tag as its own, any
/// other shape stands bare.
pub open spec fn payload(shape: Shape, attributes: Seq<AttributeView>, s: Stream) -> Step<ValueView>
    decreases shape, 2nat, 0nat,
{
    match shape {
        Shape::Record { fields: declared, catch_all } => fields(
            declared@,
            catch_all,
            0,
            attributes,
            s,
            Seq::empty(),
        ),
        _ => decode(shape, true, s),
    }
}

} // verus!
