//! Byte positions, spans and line lookup.

pub mod bytepos;
pub mod lineoffset;
pub mod span;

pub use bytepos::BytePos;
pub use lineoffset::LineOffsets;
pub use span::{GetSpan, SetSpan, Span, WithSpan};
