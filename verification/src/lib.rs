//! Decoding of XML into values of statically described shapes.
//!
//! A document is tokenized into parse events. The destination declares the
//! shape of the value that it wants (a record with named fields, a
//! sequence, a variant, an optional value, a scalar, a unit) and the decoder
//! reads the events at its cursor as that shape, or fails with the
//! mismatch that it met.
//!
//! * [`source`] holds the tokenizer and what is relied on of it.
//! * [`de`] is the token cursor: lookahead, depth and the one-shot signal.
//! * [`record`], [`sequence`] and [`variant`] are the visitors of the three
//!   composite shapes; [`untyped`] decodes without a declared shape.
//! * [`decode`] reads a value of any shape.
//! * [`model`] says what each read means, as functions on streams of
//!   events; every read is proved to compute its function.
//! * [`laws`] and [`progress`] hold what is proved of the model itself.

pub mod de;
pub mod decode;
pub mod error;
pub mod event;
pub mod laws;
pub mod model;
pub mod progress;
pub mod record;
pub mod scalar;
pub mod sequence;
pub mod serialize;
pub mod shape;
pub mod source;
pub mod stream;
pub mod untyped;
pub mod value;
pub mod variant;

pub use crate::de::Deserializer;
pub use crate::decode::deserialize;
pub use crate::error::Error;
pub use crate::error::Expected;
pub use crate::event::Attribute;
pub use crate::event::Event;
pub use crate::event::Name;
pub use crate::record::FieldSource;
pub use crate::record::RecordVisitor;
pub use crate::scalar::ScalarKind;
pub use crate::sequence::SequenceVisitor;
pub use crate::serialize::Serializer;
pub use crate::shape::Case;
pub use crate::shape::Field;
pub use crate::shape::Shape;
pub use crate::source::EventSource;
pub use crate::value::Entry;
pub use crate::value::Value;
pub use crate::variant::VariantVisitor;
