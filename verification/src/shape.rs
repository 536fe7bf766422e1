//! Shapes: what a destination asks the decoder for.

use vstd::prelude::*;
use crate::scalar::ScalarKind;

verus! {

/// The shape of a value to decode. The destination declares it; the
/// document does not decide it.
#[derive(Debug, PartialEq, Eq)]
pub enum Shape {
    /// An element without content.
    Unit,
    /// Text, converted into a scalar of the kind given.
    Scalar(ScalarKind),
    /// A value that may be missing.
    Optional(Box<Shape>),
    /// A run of sibling elements with one tag, each an item; of exactly
    /// `len` items where `len` is given.
    Sequence { item: Box<Shape>, len: Option<usize> },
    /// An element whose attributes and children hold the named fields; with
    /// `catch_all`, what follows the fields is absorbed as one more value.
    Record { fields: Vec<Field>, catch_all: bool },
    /// One of several named cases, chosen by the tag of an element.
    Variant { cases: Vec<Case> },
    /// Whatever stands at the cursor, passed over.
    Ignore,
    /// Whatever stands at the cursor, decoded as the document shapes it.
    Any,
}

/// A field of a record: its name and the shape of its value.
#[derive(Debug, PartialEq, Eq)]
pub struct Field {
    pub name: String,
    pub shape: Shape,
}

/// A case of a variant: its tag and the shape of its payload.
#[derive(Debug, PartialEq, Eq)]
pub struct Case {
    pub name: String,
    pub payload: Shape,
}

} // verus!
