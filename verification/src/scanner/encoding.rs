//! Byte offsets of character prefixes under UTF-8.

use crate::position::bytepos::{lemma_utf8_width_bounds, utf8_width};
use vstd::prelude::*;
use vstd::utf8::{
    encode_utf8, encode_utf8_decode_utf8, encode_utf8_first_scalar, encode_utf8_valid_utf8,
    is_char_boundary, pop_first_scalar,
};

verus! {

/// The number of bytes that the UTF-8 encoding of `chars` takes.
pub open spec fn utf8_len(chars: Seq<char>) -> nat {
    encode_utf8(chars).len()
}

/// The byte offset at which the character with index `i` starts in the
/// encoding of `chars`; for `i == chars.len()`, the length of the encoding.
pub open spec fn byte_offset(chars: Seq<char>, i: int) -> nat {
    utf8_len(chars.take(i))
}

/// The encoding of a concatenation is the concatenation of the encodings.
pub proof fn lemma_encode_concat(a: Seq<char>, b: Seq<char>)
    ensures
        encode_utf8(a + b) == encode_utf8(a) + encode_utf8(b),
    decreases a.len(),
{
    if a.len() == 0 {
        assert(a + b =~= b);
        assert(encode_utf8(a) + encode_utf8(b) =~= encode_utf8(b));
    } else {
        lemma_encode_concat(a.drop_first(), b);
        assert((a + b).drop_first() =~= a.drop_first() + b);
        assert(encode_utf8(a + b) =~= encode_utf8(a) + encode_utf8(b));
    }
}

/// The offset behind a character is the offset in front of it plus its width.
pub proof fn lemma_byte_offset_step(chars: Seq<char>, i: int)
    requires
        0 <= i < chars.len(),
    ensures
        byte_offset(chars, i + 1) == byte_offset(chars, i) + utf8_width(chars[i]),
{
    let one = seq![chars[i]];
    assert(chars.take(i + 1) =~= chars.take(i) + one);
    lemma_encode_concat(chars.take(i), one);
    assert(one.drop_first() =~= Seq::<char>::empty());
    assert(encode_utf8(one) =~= vstd::utf8::encode_scalar(chars[i] as u32)) by {
        reveal_with_fuel(encode_utf8, 2);
    }
}

/// The bytes in front of an offset and those behind it make up the whole
/// encoding.
pub proof fn lemma_encode_split(chars: Seq<char>, i: int)
    requires
        0 <= i <= chars.len(),
    ensures
        byte_offset(chars, i) <= utf8_len(chars),
        encode_utf8(chars).subrange(0, byte_offset(chars, i) as int) == encode_utf8(chars.take(i)),
        encode_utf8(chars).subrange(byte_offset(chars, i) as int, utf8_len(chars) as int)
            == encode_utf8(chars.skip(i)),
{
    assert(chars =~= chars.take(i) + chars.skip(i));
    lemma_encode_concat(chars.take(i), chars.skip(i));
    let head = encode_utf8(chars.take(i));
    let tail = encode_utf8(chars.skip(i));
    assert((head + tail).subrange(0, head.len() as int) =~= head);
    assert((head + tail).subrange(head.len() as int, (head + tail).len() as int) =~= tail);
}

/// Offsets grow with the index.
pub proof fn lemma_byte_offset_monotonic(chars: Seq<char>, i: int, j: int)
    requires
        0 <= i <= j <= chars.len(),
    ensures
        byte_offset(chars, i) <= byte_offset(chars, j),
{
    assert(chars.take(j).take(i) =~= chars.take(i));
    lemma_encode_split(chars.take(j), i);
}

/// The offset of every character, and the end, is a character boundary of
/// the encoding.
pub proof fn lemma_byte_offset_is_boundary(chars: Seq<char>, i: int)
    requires
        0 <= i <= chars.len(),
    ensures
        is_char_boundary(encode_utf8(chars), byte_offset(chars, i) as int),
    decreases i,
{
    let bytes = encode_utf8(chars);
    encode_utf8_valid_utf8(chars);
    if i == 0 {
        assert(chars.take(0) =~= Seq::<char>::empty());
    } else {
        let rest = chars.drop_first();
        encode_utf8_first_scalar(chars);
        assert(pop_first_scalar(bytes) =~= encode_utf8(rest));
        lemma_byte_offset_is_boundary(rest, i - 1);
        assert(chars.take(i).drop_first() =~= rest.take(i - 1));
        lemma_encode_split(chars, i);
        lemma_utf8_width_bounds(chars[0]);
        assert(byte_offset(chars, i) == utf8_width(chars[0]) + byte_offset(rest, i - 1));
    }
}

/// Two character sequences with one encoding are one sequence.
pub proof fn lemma_encode_injective(a: Seq<char>, b: Seq<char>)
    requires
        encode_utf8(a) == encode_utf8(b),
    ensures
        a == b,
{
    encode_utf8_decode_utf8(a);
    encode_utf8_decode_utf8(b);
}

} // verus!
