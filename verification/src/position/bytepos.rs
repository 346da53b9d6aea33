//! Byte offsets into a source buffer.

use core::cmp::Ordering;
use vstd::prelude::*;
use vstd::std_specs::cmp::PartialOrdSpecImpl;
use vstd::utf8::encode_scalar;

verus! {

/// The number of bytes that the UTF-8 encoding of `c` takes.
pub open spec fn utf8_width(c: char) -> nat {
    encode_scalar(c as u32).len()
}

/// Every character is encoded in one to four bytes.
pub proof fn lemma_utf8_width_bounds(c: char)
    ensures
        1 <= utf8_width(c) <= 4,
{
}

/// Trusted: `char::len_utf8` of the standard library. Its documentation gives
/// the result as the number of bytes that the character needs when encoded in
/// UTF-8; the contract states that number as the length of the encoding.
pub assume_specification[ char::len_utf8 ](c: char) -> (n: usize)
    ensures
        n == utf8_width(c),
;

/// A zero-based offset, counted in bytes, into one source buffer.
#[derive(Debug, Clone, Copy, PartialEq, Eq, Ord, Hash, Structural)]
pub struct BytePos(pub usize);

impl PartialOrd for BytePos {
    /// Positions are ordered as their offsets are.
    fn partial_cmp(&self, other: &BytePos) -> (order: Option<Ordering>) {
        if self.0 < other.0 {
            Some(Ordering::Less)
        } else if self.0 > other.0 {
            Some(Ordering::Greater)
        } else {
            Some(Ordering::Equal)
        }
    }
}

impl PartialOrdSpecImpl for BytePos {
    open spec fn obeys_partial_cmp_spec() -> bool {
        true
    }

    open spec fn partial_cmp_spec(&self, other: &BytePos) -> Option<Ordering> {
        if self.0 < other.0 {
            Some(Ordering::Less)
        } else if self.0 > other.0 {
            Some(Ordering::Greater)
        } else {
            Some(Ordering::Equal)
        }
    }
}

impl BytePos {
    /// The position just behind `ch`, when `ch` starts at this position.
    pub fn shift(self, ch: char) -> (next: BytePos)
        requires
            self.0 + utf8_width(ch) <= usize::MAX,
        ensures
            next.0 == self.0 + utf8_width(ch),
    {
        BytePos(self.0 + ch.len_utf8())
    }
}

impl Default for BytePos {
    /// The start of the buffer.
    fn default() -> (pos: BytePos)
        ensures
            pos == BytePos(0),
    {
        BytePos(0)
    }
}

} // verus!
