//! Line numbers from byte offsets.

use super::bytepos::BytePos;
use vstd::prelude::*;
use vstd::string::StringSliceAdditionalSpecFns;

verus! {

/// The byte that ends a line.
pub open spec fn is_newline(b: u8) -> bool {
    b == 10u8
}

/// The number of line-ending bytes among the first `p` bytes of `bytes`.
pub open spec fn newlines_before(bytes: Seq<u8>, p: int) -> nat
    recommends
        p <= bytes.len(),
    decreases p,
{
    if p <= 0 {
        0
    } else if is_newline(bytes[p - 1]) {
        newlines_before(bytes, p - 1) + 1
    } else {
        newlines_before(bytes, p - 1)
    }
}

/// Counting up to a later offset never finds fewer line ends.
pub proof fn lemma_newlines_before_monotonic(bytes: Seq<u8>, p: int, q: int)
    requires
        p <= q,
    ensures
        newlines_before(bytes, p) <= newlines_before(bytes, q),
    decreases q,
{
    if p < q && q > 0 {
        lemma_newlines_before_monotonic(bytes, p, q - 1);
    }
}

/// In a table of line starts, a later entry holds a greater offset.
pub proof fn lemma_line_starts_ascend(table: Seq<usize>, bytes: Seq<u8>, upto: int, i: int, j: int)
    requires
        LineOffsets::is_table_of(table, bytes, upto),
        0 <= i < j < table.len(),
    ensures
        table[i] < table[j],
{
    if table[i] >= table[j] {
        lemma_newlines_before_monotonic(bytes, table[j] as int, table[i] as int);
    }
}

/// A table of the offsets at which the lines of one buffer start.
pub struct LineOffsets {
    offsets: Vec<usize>,
    len: usize,
    bytes: Ghost<Seq<u8>>,
}

impl LineOffsets {
    /// The bytes of the buffer that the table was built from.
    pub closed spec fn source_bytes(&self) -> Seq<u8> {
        self.bytes@
    }

    /// The offsets at which the lines start, in ascending order.
    pub closed spec fn line_starts(&self) -> Seq<usize> {
        self.offsets@
    }

    /// The table holds offset 0 and the offset behind each line end of the
    /// buffer, each at the index that is its line number less one.
    pub closed spec fn wf(&self) -> bool {
        &&& self.len == self.bytes@.len()
        &&& Self::is_table_of(self.offsets@, self.bytes@, self.len as int)
    }

    /// `table` lists the line starts among the first `upto` bytes of `bytes`.
    pub open spec fn is_table_of(table: Seq<usize>, bytes: Seq<u8>, upto: int) -> bool {
        &&& table.len() == newlines_before(bytes, upto) + 1
        &&& table[0] == 0
        &&& forall|i: int|
            0 <= i < table.len() ==> {
                &&& (#[trigger] table[i]) <= upto
                &&& newlines_before(bytes, table[i] as int) == i
                &&& i > 0 ==> table[i] > 0 && is_newline(bytes[table[i] - 1])
            }
    }

    /// Builds the table for `data`.
    pub fn new(data: &str) -> (index: Self)
        ensures
            index.wf(),
            index.source_bytes() == data.spec_bytes(),
            Self::is_table_of(index.line_starts(), data.spec_bytes(), data.spec_bytes().len() as int),
    {
        let bytes = data.as_bytes();
        let len = bytes.len();
        let mut offsets: Vec<usize> = Vec::new();
        offsets.push(0);
        let mut i: usize = 0;
        while i < len
            invariant
                i <= len,
                len == bytes@.len(),
                Self::is_table_of(offsets@, bytes@, i as int),
            decreases len - i,
        {
            if bytes[i] == 10u8 {
                offsets.push(i + 1);
            }
            i += 1;
        }
        LineOffsets { offsets, len, bytes: Ghost(bytes@) }
    }

    /// The line of `pos`, or `None` where `pos` lies behind the end of the
    /// buffer.
    pub fn checked_line(&self, pos: BytePos) -> (line: Option<usize>)
        requires
            self.wf(),
        ensures
            match line {
                Some(n) => pos.0 <= self.source_bytes().len() && n == 1 + newlines_before(
                    self.source_bytes(),
                    pos.0 as int,
                ),
                None => pos.0 > self.source_bytes().len(),
            },
    {
        if pos.0 <= self.len {
            Some(self.line(pos))
        } else {
            None
        }
    }

    /// The 1-based number of the line that holds `pos`: one more than the
    /// number of line ends in front of it.
    pub fn line(&self, pos: BytePos) -> (line: usize)
        requires
            self.wf(),
            pos.0 <= self.source_bytes().len(),
        ensures
            line == 1 + newlines_before(self.source_bytes(), pos.0 as int),
    {
        let offset = pos.0;
        let n = self.offsets.len();
        let mut lo: usize = 0;
        let mut hi: usize = n;
        while hi - lo > 1
            invariant
                self.wf(),
                n == self.offsets@.len(),
                lo < hi <= n,
                self.offsets@[lo as int] <= offset,
                hi < n ==> offset < self.offsets@[hi as int],
            decreases hi - lo,
        {
            let mid = lo + (hi - lo) / 2;
            if self.offsets[mid] <= offset {
                lo = mid;
            } else {
                hi = mid;
            }
        }
        proof {
            let bytes = self.bytes@;
            lemma_newlines_before_monotonic(bytes, self.offsets@[lo as int] as int, offset as int);
            if hi < n {
                lemma_newlines_before_monotonic(
                    bytes,
                    offset as int,
                    self.offsets@[hi as int] - 1,
                );
            } else {
                lemma_newlines_before_monotonic(bytes, offset as int, self.len as int);
            }
        }
        lo + 1
    }
}

} // verus!
