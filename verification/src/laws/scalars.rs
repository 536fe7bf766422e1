//! Laws of scalars: what is written for a value is decoded as that value.

use vstd::prelude::*;
use crate::error::ErrorView;
use crate::event::AttributeView;
use crate::event::EventView;
use crate::event::NameView;
use crate::laws::elements::behind;
use crate::model;
use crate::scalar::ScalarKind;
use crate::scalar::all_digits;
use crate::scalar::convert;
use crate::scalar::digit;
use crate::scalar::digits_value;
use crate::scalar::integer;
use crate::scalar::is_digit;
use crate::scalar::is_negative;
use crate::serialize::bool_text;
use crate::shape::Shape;
use crate::stream::Stream;
use crate::value::ValueView;

verus! {

/// A string is decoded as the text itself, whatever the text: the empty
/// text too.
pub proof fn lemma_text_round_trip(text: Seq<char>)
    ensures
        convert(ScalarKind::Str, text) == Ok::<ValueView, ErrorView>(ValueView::Str(text)),
{
}

/// The text that is written for a boolean is decoded as that boolean.
pub proof fn lemma_bool_round_trip(v: bool)
    ensures
        convert(ScalarKind::Bool, bool_text(v)) == Ok::<ValueView, ErrorView>(ValueView::Bool(v)),
{
    reveal_strlit("true");
    reveal_strlit("false");
    assert("true"@.len() == 4);
    assert("false"@.len() == 5);
}

/// A text of one character is decoded as that character.
pub proof fn lemma_char_round_trip(c: char)
    ensures
        convert(ScalarKind::Char, seq![c]) == Ok::<ValueView, ErrorView>(ValueView::Char(c)),
{
}

/// The character that writes the digit `d`.
pub open spec fn digit_char(d: nat) -> char
    recommends
        d < 10,
{
    (48 + d) as u8 as char
}

/// The decimal digits that write the number `n`, without leading zeros.
pub open spec fn digits_of(n: nat) -> Seq<char>
    decreases n,
{
    if n < 10 {
        seq![digit_char(n)]
    } else {
        digits_of(n / 10).push(digit_char(n % 10))
    }
}

/// The text that writes the integer `v` in decimal, with a minus sign where
/// it is negative.
pub open spec fn decimal(v: int) -> Seq<char> {
    if v < 0 {
        seq!['-'] + digits_of((-v) as nat)
    } else {
        digits_of(v as nat)
    }
}

/// The digits of a number are digits, and they write that number.
pub proof fn lemma_digits_of(n: nat)
    ensures
        digits_of(n).len() > 0,
        all_digits(digits_of(n)),
        digits_value(digits_of(n)) == n,
    decreases n,
{
    if n < 10 {
        let s = seq![digit_char(n)];
        assert(is_digit(s[0]));
        assert(s.drop_last() =~= Seq::<char>::empty());
        assert(digits_value(s.drop_last()) == 0);
        assert(digit(s.last()) == n);
    } else {
        lemma_digits_of(n / 10);
        let s = digits_of(n);
        let front = digits_of(n / 10);
        assert(s.drop_last() =~= front);
        assert(is_digit(digit_char(n % 10)));
        assert(digit(s.last()) == n % 10);
        assert forall|i: int| 0 <= i < s.len() implies is_digit(#[trigger] s[i]) by {
            if i < front.len() {
                assert(s[i] == front[i]);
            }
        }
    }
}

/// The decimal text of an integer is read back as that integer.
pub proof fn lemma_decimal_is_read_back(v: int)
    ensures
        integer(decimal(v)) == Some(v),
        is_negative(decimal(v)) == (v < 0),
{
    if v < 0 {
        let body = digits_of((-v) as nat);
        lemma_digits_of((-v) as nat);
        assert(decimal(v).skip(1) =~= body);
    } else {
        let body = digits_of(v as nat);
        lemma_digits_of(v as nat);
        assert(is_digit(body[0]));
    }
}

/// An integer in the range of an integer kind, written in decimal, is
/// decoded as that integer: the least and the greatest of the kind too.
pub proof fn lemma_integer_round_trip(kind: ScalarKind, v: int)
    requires
        kind.is_signed() || kind.is_unsigned(),
        kind.least() <= v <= kind.greatest(),
    ensures
        convert(kind, decimal(v)) == Ok::<ValueView, ErrorView>(
            if kind.is_signed() {
                ValueView::Int(v)
            } else {
                ValueView::UInt(v as nat)
            },
        ),
{
    lemma_decimal_is_read_back(v);
}

/// A scalar that stands in an element of its own is the conversion of the
/// element's character data, and exactly the start tag, the text and the
/// end tag are consumed.
pub proof fn lemma_scalar_element(
    s: Stream,
    kind: ScalarKind,
    name: NameView,
    attributes: Seq<AttributeView>,
    text: Seq<char>,
)
    requires
        s.tokens.len() >= 3,
        s.tokens[0] == (EventView::StartElement { name, attributes }),
        s.tokens[1] == EventView::Characters(text),
        s.tokens[2] == (EventView::EndElement { name }),
        s.depth < usize::MAX,
    ensures
        model::decode(Shape::Scalar(kind), false, s) == match convert(kind, text) {
            Ok(value) => Ok::<(ValueView, Stream), ErrorView>((value, behind(s, 3))),
            Err(error) => Err::<(ValueView, Stream), ErrorView>(error),
        },
{
    let inner = s.rest(s.depth + 1);
    let after = inner.rest(inner.depth);
    assert(inner.tokens[0] == s.tokens[1]);
    assert(after.tokens[0] == s.tokens[2]);
    assert(after.rest(s.depth).tokens =~= s.tokens.skip(3));
    assert(model::text_content(inner) == Ok::<(Seq<char>, Stream), ErrorView>((text, after)));
    assert(after.expect_end(name) == Ok::<Stream, ErrorView>(behind(s, 3)));
}

/// A scalar that stands in an element without content is the conversion of
/// the empty text.
pub proof fn lemma_scalar_empty_element(
    s: Stream,
    kind: ScalarKind,
    name: NameView,
    attributes: Seq<AttributeView>,
)
    requires
        s.tokens.len() >= 2,
        s.tokens[0] == (EventView::StartElement { name, attributes }),
        s.tokens[1] == (EventView::EndElement { name }),
        s.depth < usize::MAX,
    ensures
        model::decode(Shape::Scalar(kind), false, s) == match convert(kind, Seq::empty()) {
            Ok(value) => Ok::<(ValueView, Stream), ErrorView>((value, behind(s, 2))),
            Err(error) => Err::<(ValueView, Stream), ErrorView>(error),
        },
{
    let inner = s.rest(s.depth + 1);
    assert(inner.tokens[0] == s.tokens[1]);
    assert(inner.rest(s.depth).tokens =~= s.tokens.skip(2));
    assert(model::text_content(inner) == Ok::<(Seq<char>, Stream), ErrorView>(
        (Seq::empty(), inner),
    ));
    assert(inner.expect_end(name) == Ok::<Stream, ErrorView>(behind(s, 2)));
}

} // verus!
