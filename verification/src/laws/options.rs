//! Laws of optional values: missing before an end tag, present elsewhere.

use vstd::prelude::*;
use crate::error::ErrorView;
use crate::event::AttributeView;
use crate::event::EventView;
use crate::event::NameView;
use crate::laws::elements::behind;
use crate::laws::scalars::lemma_scalar_empty_element;
use crate::model;
use crate::scalar::ScalarKind;
use crate::shape::Shape;
use crate::stream::Stream;
use crate::value::ValueView;

verus! {

/// An optional value before an end tag is missing, and nothing is consumed.
pub proof fn lemma_optional_before_end_is_absent(inner: Shape, s: Stream)
    requires
        s.tokens.len() > 0,
        s.tokens[0] is EndElement,
    ensures
        model::optional(inner, false, s) == Ok::<(ValueView, Stream), ErrorView>(
            (ValueView::Absent, s),
        ),
{
}

/// An optional value anywhere else is present and is what its shape decodes
/// there; bare it is present even before an end tag.
pub proof fn lemma_optional_elsewhere_is_present(inner: Shape, bare: bool, s: Stream)
    requires
        s.tokens.len() > 0,
        bare || !(s.tokens[0] is EndElement),
    ensures
        model::optional(inner, bare, s) == model::present(model::decode(inner, bare, s)),
{
}

/// An optional string in an element without content is present and empty.
pub proof fn lemma_optional_empty_element_is_empty_text(
    s: Stream,
    name: NameView,
    attributes: Seq<AttributeView>,
)
    requires
        s.tokens.len() >= 2,
        s.tokens[0] == (EventView::StartElement { name, attributes }),
        s.tokens[1] == (EventView::EndElement { name }),
        s.depth < usize::MAX,
    ensures
        model::optional(Shape::Scalar(ScalarKind::Str), false, s) == Ok::<
            (ValueView, Stream),
            ErrorView,
        >((ValueView::Present(Box::new(ValueView::Str(Seq::empty()))), behind(s, 2))),
{
    lemma_scalar_empty_element(s, ScalarKind::Str, name, attributes);
}

} // verus!
