//! Decoded values.

use vstd::prelude::*;

verus! {

/// A value decoded from a document.
#[derive(Debug, PartialEq, Eq)]
pub enum Value {
    /// Nothing: an element without content, or a subtree passed over.
    Unit,
    Bool(bool),
    Char(char),
    /// A signed integer of any width.
    Int(i64),
    /// An unsigned integer of any width.
    UInt(u64),
    Str(String),
    /// An optional value that the document does not hold.
    Absent,
    /// An optional value that the document holds.
    Present(Box<Value>),
    /// The items of a sequence, in document order.
    List(Vec<Value>),
    /// The fields of a record in declared order; where the record declares a
    /// catch-all, what that absorbed comes last.
    Record(Vec<Value>),
    /// A variant, by its place among the declared variants, and its payload.
    Variant(usize, Box<Value>),
    /// An element decoded without a declared shape: its attributes and then
    /// its children, each under its name.
    Element(Vec<Entry>),
}

/// One attribute or child of an element decoded without a declared shape.
#[derive(Debug, PartialEq, Eq)]
pub struct Entry {
    pub key: String,
    pub value: Value,
}

/// The mathematical value of a [`Value`].
pub enum ValueView {
    Unit,
    Bool(bool),
    Char(char),
    Int(int),
    UInt(nat),
    Str(Seq<char>),
    Absent,
    Present(Box<ValueView>),
    List(Seq<ValueView>),
    Record(Seq<ValueView>),
    Variant(nat, Box<ValueView>),
    Element(Seq<EntryView>),
}

/// The mathematical value of an [`Entry`].
pub struct EntryView {
    pub key: Seq<char>,
    pub value: ValueView,
}

/// The mathematical value of `value`.
pub open spec fn value_view(value: Value) -> ValueView
    decreases value,
{
    match value {
        Value::Unit => ValueView::Unit,
        Value::Bool(b) => ValueView::Bool(b),
        Value::Char(c) => ValueView::Char(c),
        Value::Int(i) => ValueView::Int(i as int),
        Value::UInt(u) => ValueView::UInt(u as nat),
        Value::Str(s) => ValueView::Str(s@),
        Value::Absent => ValueView::Absent,
        Value::Present(inner) => ValueView::Present(Box::new(value_view(*inner))),
        Value::List(items) => ValueView::List(value_views(items@)),
        Value::Record(fields) => ValueView::Record(value_views(fields@)),
        Value::Variant(index, payload) => ValueView::Variant(
            index as nat,
            Box::new(value_view(*payload)),
        ),
        Value::Element(entries) => ValueView::Element(entry_views(entries@)),
    }
}

/// The mathematical value of `entry`.
pub open spec fn entry_view(entry: Entry) -> EntryView
    decreases entry,
{
    EntryView { key: entry.key@, value: value_view(entry.value) }
}

impl View for Value {
    type V = ValueView;

    open spec fn view(&self) -> ValueView {
        value_view(*self)
    }
}

impl View for Entry {
    type V = EntryView;

    open spec fn view(&self) -> EntryView {
        entry_view(*self)
    }
}

/// The views of a run of values, in order.
pub open spec fn value_views(values: Seq<Value>) -> Seq<ValueView>
    decreases values,
{
    if values.len() == 0 {
        Seq::empty()
    } else {
        value_views(values.drop_last()).push(value_view(values.last()))
    }
}

/// The views of a run of entries, in order.
pub open spec fn entry_views(entries: Seq<Entry>) -> Seq<EntryView>
    decreases entries,
{
    if entries.len() == 0 {
        Seq::empty()
    } else {
        entry_views(entries.drop_last()).push(entry_view(entries.last()))
    }
}

/// A run of values has as many views as values.
pub proof fn lemma_value_views_len(values: Seq<Value>)
    ensures
        value_views(values).len() == values.len(),
    decreases values.len(),
{
    if values.len() > 0 {
        lemma_value_views_len(values.drop_last());
    }
}

/// The views of a run with one more value are the views of the run with
/// the view of that value behind them.
pub proof fn lemma_value_views_push(values: Seq<Value>, value: Value)
    ensures
        value_views(values.push(value)) == value_views(values).push(value@),
{
    assert(values.push(value).drop_last() =~= values);
}

/// The views of a run with one more entry are the views of the run with
/// the view of that entry behind them.
pub proof fn lemma_entry_views_push(entries: Seq<Entry>, entry: Entry)
    ensures
        entry_views(entries.push(entry)) == entry_views(entries).push(entry@),
{
    assert(entries.push(entry).drop_last() =~= entries);
}

} // verus!
