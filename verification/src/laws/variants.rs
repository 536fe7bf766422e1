//! Laws of variants: the tag of the element selects the case.

use vstd::prelude::*;
use crate::error::ErrorView;
use crate::event::AttributeView;
use crate::event::EventView;
use crate::event::NameView;
use crate::model;
use crate::shape::Case;
use crate::stream::Stream;
use crate::value::ValueView;

verus! {

/// `find_case` gives the first place at or after `from` that bears the
/// name, and nothing where no place does.
pub proof fn lemma_find_case(cases: Seq<Case>, tag: Seq<char>, from: nat)
    ensures
        match model::find_case(cases, tag, from) {
            Some(place) => {
                &&& from <= place < cases.len()
                &&& cases[place as int].name@ == tag
                &&& forall|k: int| from <= k < place ==> cases[k].name@ != tag
            },
            None => forall|k: int| from <= k < cases.len() ==> cases[k].name@ != tag,
        },
    decreases cases.len() - from,
{
    if from < cases.len() && cases[from as int].name@ != tag {
        lemma_find_case(cases, tag, from + 1);
    }
}

/// A tag that none of the cases bears is an unknown variant, whatever the
/// element holds.
pub proof fn lemma_unknown_variant(
    cases: Seq<Case>,
    s: Stream,
    name: NameView,
    attributes: Seq<AttributeView>,
)
    requires
        s.tokens.len() > 0,
        s.tokens[0] == (EventView::StartElement { name, attributes }),
        s.depth < usize::MAX,
        forall|k: int| 0 <= k < cases.len() ==> cases[k].name@ != name.local_name,
    ensures
        model::variant_content(cases, s) == Err::<(ValueView, Stream), ErrorView>(
            ErrorView::UnknownVariant(name.local_name),
        ),
{
    lemma_find_case(cases, name.local_name, 0);
}

/// A tag that a case bears selects the first such case, and the variant is
/// that case's payload, decoded inside the element.
pub proof fn lemma_known_variant(
    cases: Seq<Case>,
    s: Stream,
    name: NameView,
    attributes: Seq<AttributeView>,
    place: nat,
)
    requires
        s.tokens.len() > 0,
        s.tokens[0] == (EventView::StartElement { name, attributes }),
        s.depth < usize::MAX,
        place < cases.len(),
        cases[place as int].name@ == name.local_name,
        forall|k: int| 0 <= k < place ==> cases[k].name@ != name.local_name,
    ensures
        model::variant_content(cases, s) == model::leave(
            Some(name),
            model::tagged(
                place,
                model::payload(cases[place as int].payload, attributes, s.rest(s.depth + 1)),
            ),
        ),
{
    lemma_find_case(cases, name.local_name, 0);
}

} // verus!
