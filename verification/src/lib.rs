//! Building blocks for hand-written lexers and parsers: byte positions and
//! spans, a line index, a character scanner and a token-stream cursor.

pub mod parser;
pub mod position;
pub mod scanner;

pub use parser::{EndOfFile, Parser, Token};
pub use position::{BytePos, GetSpan, LineOffsets, SetSpan, Span, WithSpan};
pub use scanner::Scanner;
