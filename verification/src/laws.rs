//! Laws of the decoding model, each proved for every input.

pub mod elements;
pub mod options;
pub mod records;
pub mod scalars;
pub mod sequences;
pub mod variants;
