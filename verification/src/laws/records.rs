//! Laws of records: the order of the attributes does not matter, and a
//! record whose fields are each written once is decoded to their values.

use vstd::prelude::*;
use crate::error::ErrorView;
use crate::error::ExpectedView;
use crate::event::AttributeView;
use crate::event::EventView;
use crate::event::NameView;
use crate::laws::elements::behind;
use crate::model;
use crate::shape::Field;
use crate::stream::Stream;
use crate::value::ValueView;

verus! {

/// Whether no two attributes of `pool` share a local name.
pub open spec fn distinct_names(pool: Seq<AttributeView>) -> bool {
    forall|i: int, j: int|
        0 <= i < j < pool.len() ==> pool[i].name.local_name != pool[j].name.local_name
}

/// Whether `a` and `b` hold the same attributes, in whatever order.
pub open spec fn same_attributes(a: Seq<AttributeView>, b: Seq<AttributeView>) -> bool {
    a.to_multiset() == b.to_multiset()
}

/// `find_attribute` gives the first place at or after `from` that holds the
/// name, and nothing where no place does.
pub proof fn lemma_find_attribute(pool: Seq<AttributeView>, name: Seq<char>, from: nat)
    ensures
        match model::find_attribute(pool, name, from) {
            Some(place) => {
                &&& from <= place < pool.len()
                &&& pool[place as int].name.local_name == name
                &&& forall|k: int| from <= k < place ==> pool[k].name.local_name != name
            },
            None => forall|k: int| from <= k < pool.len() ==> pool[k].name.local_name != name,
        },
    decreases pool.len() - from,
{
    if from < pool.len() && pool[from as int].name.local_name != name {
        lemma_find_attribute(pool, name, from + 1);
    }
}

/// Two pools with the same attributes, none of them sharing a name, answer a
/// field of any name with the same attribute.
pub proof fn lemma_find_in_any_order(a: Seq<AttributeView>, b: Seq<AttributeView>, name: Seq<char>)
    requires
        same_attributes(a, b),
        distinct_names(a),
    ensures
        match model::find_attribute(a, name, 0) {
            Some(i) => model::find_attribute(b, name, 0) matches Some(j) && a[i as int]
                == b[j as int] && 0 <= i < a.len() && 0 <= j < b.len(),
            None => model::find_attribute(b, name, 0) is None,
        },
{
    broadcast use vstd::seq_lib::to_multiset_contains;

    lemma_find_attribute(a, name, 0);
    lemma_find_attribute(b, name, 0);
    match model::find_attribute(b, name, 0) {
        Some(j) => {
            let found = b[j as int];
            assert(b.contains(found));
            assert(b.to_multiset().count(found) > 0);
            assert(a.to_multiset().count(found) > 0);
            assert(a.contains(found));
            let k = choose|k: int| 0 <= k < a.len() && a[k] == found;
            assert(a[k].name.local_name == name);
        },
        None => {
            if model::find_attribute(a, name, 0) is Some {
                let i = model::find_attribute(a, name, 0)->0;
                let found = a[i as int];
                assert(a.contains(found));
                assert(a.to_multiset().count(found) > 0);
                assert(b.to_multiset().count(found) > 0);
                assert(b.contains(found));
                let k = choose|k: int| 0 <= k < b.len() && b[k] == found;
                assert(b[k].name.local_name == name);
            }
        },
    }
}

/// The fields of a record are decoded alike from two pools that hold the
/// same attributes in different orders, where no two attributes share a
/// name.
pub proof fn lemma_fields_in_any_attribute_order(
    declared: Seq<Field>,
    catch_all: bool,
    at: nat,
    a: Seq<AttributeView>,
    b: Seq<AttributeView>,
    s: Stream,
    done: Seq<ValueView>,
)
    requires
        same_attributes(a, b),
        distinct_names(a),
    ensures
        model::fields(declared, catch_all, at, a, s, done) == model::fields(
            declared,
            catch_all,
            at,
            b,
            s,
            done,
        ),
    decreases declared.len() - at,
{
    if at < declared.len() {
        let field = declared[at as int];
        lemma_find_in_any_order(a, b, field.name@);
        match model::find_attribute(a, field.name@, 0) {
            Some(i) => {
                let j = model::find_attribute(b, field.name@, 0)->0;
                match model::decode_text(field.shape, a[i as int].value) {
                    Ok(value) => {
                        vstd::seq_lib::to_multiset_remove(a, i as int);
                        vstd::seq_lib::to_multiset_remove(b, j as int);
                        let fewer = a.remove(i as int);
                        assert forall|x: int, y: int| 0 <= x < y < fewer.len() implies fewer[x].name.local_name
                            != fewer[y].name.local_name by {
                            let from_x = if x < i {
                                x
                            } else {
                                x + 1
                            };
                            let from_y = if y < i {
                                y
                            } else {
                                y + 1
                            };
                            assert(fewer[x] == a[from_x]);
                            assert(fewer[y] == a[from_y]);
                        }
                        lemma_fields_in_any_attribute_order(
                            declared,
                            catch_all,
                            at + 1,
                            a.remove(i as int),
                            b.remove(j as int),
                            s,
                            done.push(value),
                        );
                    },
                    Err(_) => {},
                }
            },
            None => {
                match s.peek() {
                    Err(_) => {},
                    Ok(event) => {
                        if model::claims(event, field.name@) {
                            match model::field_value(field.shape, s) {
                                Ok((value, rest)) => {
                                    lemma_fields_in_any_attribute_order(
                                        declared,
                                        catch_all,
                                        at + 1,
                                        a,
                                        b,
                                        rest,
                                        done.push(value),
                                    );
                                },
                                Err(_) => {},
                            }
                        } else {
                            match model::missing(field, event) {
                                Ok(value) => {
                                    lemma_fields_in_any_attribute_order(
                                        declared,
                                        catch_all,
                                        at + 1,
                                        a,
                                        b,
                                        s,
                                        done.push(value),
                                    );
                                },
                                Err(_) => {},
                            }
                        }
                    },
                }
            },
        }
    }
}

/// A record is decoded alike whatever the order of the attributes in its
/// start tag, where no two of them share a name: two streams that differ
/// in that order alone give the same value, or the same failure, and leave
/// the same stream.
pub proof fn lemma_record_in_any_attribute_order(
    declared: Seq<Field>,
    catch_all: bool,
    s: Stream,
    t: Stream,
    name: NameView,
    a: Seq<AttributeView>,
    b: Seq<AttributeView>,
)
    requires
        s.tokens.len() > 0,
        s.tokens[0] == (EventView::StartElement { name, attributes: a }),
        t == (Stream { tokens: s.tokens.update(0, EventView::StartElement { name, attributes: b }), ..s }),
        same_attributes(a, b),
        distinct_names(a),
    ensures
        model::record(declared, catch_all, s) == model::record(declared, catch_all, t),
{
    assert(s.tokens.skip(1) =~= t.tokens.skip(1));
    if s.depth < usize::MAX {
        let inner = s.rest(s.depth + 1);
        assert(t.rest(t.depth + 1) == inner);
        lemma_fields_in_any_attribute_order(declared, catch_all, 0, a, b, inner, Seq::empty());
    }
}

/// How a document writes one field of a record.
pub enum Written {
    /// As this attribute of the record's element.
    Attribute(AttributeView),
    /// As children of the record's element; behind them the stream is
    /// `after`.
    Child { after: Stream },
}

/// The stream before the field at place `at`, where the fields before it
/// are written as `written` says and the first of them meets the stream
/// `s`.
pub open spec fn stream_before(written: Seq<Written>, s: Stream, at: nat) -> Stream
    decreases at,
{
    if at == 0 || at > written.len() {
        s
    } else {
        match written[at - 1] {
            Written::Child { after } => after,
            Written::Attribute(_) => stream_before(written, s, (at - 1) as nat),
        }
    }
}

/// The attributes that write the fields from place `at` on, in the order of
/// the fields.
pub open spec fn attributes_from(written: Seq<Written>, at: nat) -> Seq<AttributeView>
    decreases written.len() - at,
{
    if at >= written.len() {
        Seq::empty()
    } else {
        match written[at as int] {
            Written::Attribute(attribute) => seq![attribute] + attributes_from(written, at + 1),
            Written::Child { .. } => attributes_from(written, at + 1),
        }
    }
}

/// Whether a document writes each field of `declared` exactly once, as
/// `written` says, with the values `values`: a field written as an
/// attribute has an attribute of its name whose text decodes to its value;
/// a field written as children has no attribute of its name, finds the
/// first of its children at the cursor, and decodes them to its value.
pub open spec fn writes(
    declared: Seq<Field>,
    written: Seq<Written>,
    values: Seq<ValueView>,
    s: Stream,
) -> bool {
    &&& written.len() == declared.len()
    &&& values.len() == declared.len()
    &&& distinct_names(attributes_from(written, 0))
    &&& forall|i: int|
        0 <= i < declared.len() ==> match #[trigger] written[i] {
            Written::Attribute(attribute) => {
                &&& attribute.name.local_name == declared[i].name@
                &&& model::decode_text(declared[i].shape, attribute.value) == Ok::<
                    ValueView,
                    ErrorView,
                >(values[i])
            },
            Written::Child { after } => {
                let before = stream_before(written, s, i as nat);
                &&& model::find_attribute(attributes_from(written, i as nat), declared[i].name@, 0)
                    is None
                &&& before.tokens.len() > 0
                &&& model::claims(before.tokens[0], declared[i].name@)
                &&& model::field_value(declared[i].shape, before) == Ok::<
                    (ValueView, Stream),
                    ErrorView,
                >((values[i], after))
            },
        }
}

/// The fields from place `at` on are decoded to their values where the pool
/// holds the attributes that write them in the order of the fields.
pub proof fn lemma_fields_are_read_back(
    declared: Seq<Field>,
    written: Seq<Written>,
    values: Seq<ValueView>,
    s: Stream,
    at: nat,
)
    requires
        writes(declared, written, values, s),
        at <= declared.len(),
    ensures
        model::fields(
            declared,
            false,
            at,
            attributes_from(written, at),
            stream_before(written, s, at),
            values.take(at as int),
        ) == Ok::<(ValueView, Stream), ErrorView>(
            (ValueView::Record(values), stream_before(written, s, declared.len())),
        ),
    decreases declared.len() - at,
{
    if at >= declared.len() {
        assert(values.take(at as int) =~= values);
    } else {
        let pool = attributes_from(written, at);
        let before = stream_before(written, s, at);
        assert(values.take(at as int).push(values[at as int]) =~= values.take(at as int + 1));
        lemma_fields_are_read_back(declared, written, values, s, at + 1);
        match written[at as int] {
            Written::Attribute(attribute) => {
                assert(pool[0] == attribute);
                assert(pool.remove(0) =~= attributes_from(written, at + 1));
                assert(stream_before(written, s, at + 1) == before);
            },
            Written::Child { after } => {
                assert(pool == attributes_from(written, at + 1));
                assert(stream_before(written, s, at + 1) == after);
            },
        }
    }
}

/// A record whose fields are each written exactly once, as an attribute or
/// as children, is decoded to the values of its fields in declared order,
/// whatever the order of the attributes in its start tag; the children stand
/// in declared order. Exactly the element is consumed where its end tag
/// follows the last child.
pub proof fn lemma_record_is_read_back(
    declared: Seq<Field>,
    written: Seq<Written>,
    values: Seq<ValueView>,
    s: Stream,
    name: NameView,
    attributes: Seq<AttributeView>,
)
    requires
        s.tokens.len() > 0,
        s.tokens[0] == (EventView::StartElement { name, attributes }),
        s.depth < usize::MAX,
        same_attributes(attributes_from(written, 0), attributes),
        writes(declared, written, values, s.rest(s.depth + 1)),
    ensures
        model::record(declared, false, s) == model::leave(
            Some(name),
            Ok::<(ValueView, Stream), ErrorView>(
                (
                    ValueView::Record(values),
                    stream_before(written, s.rest(s.depth + 1), declared.len()),
                ),
            ),
        ),
{
    let inner = s.rest(s.depth + 1);
    lemma_fields_are_read_back(declared, written, values, inner, 0);
    assert(values.take(0) =~= Seq::<ValueView>::empty());
    lemma_fields_in_any_attribute_order(
        declared,
        false,
        0,
        attributes_from(written, 0),
        attributes,
        inner,
        Seq::empty(),
    );
}

/// An attribute is asked before the children: where the pool holds an
/// attribute of the field's name, the first such attribute answers the
/// field, whatever stands at the cursor.
pub proof fn lemma_attribute_wins(pool: Seq<AttributeView>, name: Seq<char>, s: Stream, t: Stream)
    requires
        model::find_attribute(pool, name, 0) is Some,
    ensures
        model::resolve(pool, name, s) == model::resolve(pool, name, t),
        model::resolve(pool, name, s) matches Ok(model::SourceView::Attribute(place)) && place
            < pool.len() && pool[place as int].name.local_name == name,
{
    lemma_find_attribute(pool, name, 0);
}

/// A child that no field has read fails the record at its end tag: where
/// anything but the end tag of the element follows the fields, leaving the
/// element is a mismatch that reports what was found.
pub proof fn lemma_unread_content_is_a_mismatch(name: NameView, value: ValueView, s: Stream)
    requires
        s.tokens.len() > 0,
        s.tokens[0] != (EventView::EndElement { name }),
        !(s.tokens[0] is StartElement),
    ensures
        model::leave(Some(name), Ok::<(ValueView, Stream), ErrorView>((value, s))) == Err::<
            (ValueView, Stream),
            ErrorView,
        >(
            ErrorView::Mismatch {
                expected: ExpectedView::EndOf(name),
                found: s.tokens[0],
            },
        ),
{
}

/// The same for a child element that no field has read, as long as the
/// depth can still be counted.
pub proof fn lemma_unread_child_is_a_mismatch(name: NameView, value: ValueView, s: Stream)
    requires
        s.tokens.len() > 0,
        s.tokens[0] is StartElement,
        s.depth < usize::MAX,
    ensures
        model::leave(Some(name), Ok::<(ValueView, Stream), ErrorView>((value, s))) == Err::<
            (ValueView, Stream),
            ErrorView,
        >(
            ErrorView::Mismatch {
                expected: ExpectedView::EndOf(name),
                found: s.tokens[0],
            },
        ),
{
}

} // verus!
