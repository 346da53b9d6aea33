//! A cursor over the characters of a text buffer.

pub mod encoding;

use crate::position::bytepos::{utf8_width, BytePos};
use crate::position::span::{Span, WithSpan};
use encoding::{
    byte_offset, lemma_byte_offset_is_boundary, lemma_byte_offset_monotonic,
    lemma_byte_offset_step, lemma_encode_injective, lemma_encode_split, utf8_len,
};
use vstd::prelude::*;

verus! {

/// The characters of `text`, in order.
fn decode(text: &str) -> (chars: Vec<char>)
    ensures
        chars@ == text@,
{
    let mut chars: Vec<char> = Vec::new();
    for c in it: text.chars()
        invariant
            it.seq() == text@,
            chars@ == it.seq().take(it.index() as int),
    {
        chars.push(c);
    }
    chars
}

/// A scanner reads a buffer character by character. It keeps two positions:
/// where the token being read starts, and how far reading has come.
pub struct Scanner<'a> {
    start: BytePos,
    current: BytePos,
    source: &'a str,
    chars: Vec<char>,
    index: usize,
    start_index: Ghost<nat>,
}

impl<'a> Scanner<'a> {
    /// The characters of the buffer.
    pub closed spec fn text(&self) -> Seq<char> {
        self.source@
    }

    /// The number of characters consumed so far.
    pub closed spec fn consumed(&self) -> nat {
        self.index as nat
    }

    /// The number of characters that were consumed when the current token
    /// was started.
    pub closed spec fn token_start_index(&self) -> nat {
        self.start_index@
    }

    /// The byte position at which the current token starts.
    pub closed spec fn start_spec(&self) -> BytePos {
        self.start
    }

    /// The byte position up to which the buffer is consumed.
    pub closed spec fn current_spec(&self) -> BytePos {
        self.current
    }

    /// The decoded characters are those of the buffer, whose encoding has a
    /// length that fits the machine.
    pub closed spec fn decoded(&self) -> bool {
        &&& self.chars@ == self.source@
        &&& utf8_len(self.source@) <= usize::MAX
    }

    /// The token start does not lie behind the cursor, both lie within the
    /// buffer, and the two byte positions are the offsets of the characters
    /// at those indices.
    pub open spec fn wf(&self) -> bool {
        &&& self.decoded()
        &&& self.token_start_index() <= self.consumed() <= self.text().len()
        &&& self.start_spec().0 == byte_offset(self.text(), self.token_start_index() as int)
        &&& self.current_spec().0 == byte_offset(self.text(), self.consumed() as int)
    }

    /// The characters not yet consumed.
    pub open spec fn remaining(&self) -> Seq<char> {
        self.text().skip(self.consumed() as int)
    }

    /// The character with index `i` among those not yet consumed.
    pub open spec fn lookahead(&self, i: nat) -> Option<char> {
        if self.consumed() + i < self.text().len() {
            Some(self.text()[(self.consumed() + i) as int])
        } else {
            None
        }
    }

    /// The next character, where there is one.
    pub open spec fn peek_spec(&self) -> Option<char> {
        self.lookahead(0)
    }

    /// The characters of the current token.
    pub open spec fn token_text(&self) -> Seq<char> {
        self.text().subrange(self.token_start_index() as int, self.consumed() as int)
    }

    /// `next` is `self` after `n` more characters were consumed.
    pub open spec fn advanced_by(&self, next: &Self, n: nat) -> bool {
        &&& next.wf()
        &&& next.text() == self.text()
        &&& next.token_start_index() == self.token_start_index()
        &&& next.start_spec() == self.start_spec()
        &&& next.consumed() == self.consumed() + n
    }

    /// The token start does not lie behind the cursor, and the cursor does
    /// not lie behind the end of the buffer.
    pub proof fn lemma_positions_in_order(&self)
        requires
            self.wf(),
        ensures
            self.start_spec().0 <= self.current_spec().0 <= utf8_len(self.text()),
    {
        let text = self.text();
        lemma_byte_offset_monotonic(
            text,
            self.token_start_index() as int,
            self.consumed() as int,
        );
        lemma_byte_offset_monotonic(text, self.consumed() as int, text.len() as int);
        assert(text.take(text.len() as int) =~= text);
    }

    /// Consuming more characters never moves the cursor back.
    pub proof fn lemma_cursor_moves_forward(&self, next: &Self, n: nat)
        requires
            self.wf(),
            self.advanced_by(next, n),
        ensures
            self.current_spec().0 <= next.current_spec().0,
    {
        lemma_byte_offset_monotonic(
            self.text(),
            self.consumed() as int,
            next.consumed() as int,
        );
    }

    /// A scanner at the start of `buf`.
    pub fn new(buf: &'a str) -> (scanner: Scanner<'a>)
        ensures
            scanner.wf(),
            scanner.text() == buf@,
            scanner.consumed() == 0,
            scanner.token_start_index() == 0,
            scanner.start_spec() == BytePos(0),
            scanner.current_spec() == BytePos(0),
    {
        let chars = decode(buf);
        // As a byte slice the buffer has a length that fits the machine.
        let bytes = buf.as_bytes();
        proof {
            assert(bytes@.len() == vstd::slice::spec_slice_len(bytes));
            assert(buf@.take(0) =~= Seq::<char>::empty());
        }
        Scanner {
            current: BytePos(0),
            start: BytePos(0),
            source: buf,
            chars,
            index: 0,
            start_index: Ghost(0),
        }
    }

    /// The whole buffer.
    pub fn source(&self) -> (text: &str)
        ensures
            text@ == self.text(),
    {
        self.source
    }

    /// The byte position at which the current token starts.
    pub fn start(&self) -> (pos: BytePos)
        ensures
            pos == self.start_spec(),
    {
        self.start
    }

    /// The byte position up to which the buffer is consumed.
    pub fn current(&self) -> (pos: BytePos)
        ensures
            pos == self.current_spec(),
    {
        self.current
    }

    /// Starts a new token where the cursor stands.
    pub fn shift(&mut self)
        requires
            old(self).wf(),
        ensures
            final(self).wf(),
            final(self).text() == old(self).text(),
            final(self).consumed() == old(self).consumed(),
            final(self).current_spec() == old(self).current_spec(),
            final(self).token_start_index() == old(self).consumed(),
            final(self).start_spec() == old(self).current_spec(),
    {
        self.start = self.current;
        self.start_index = Ghost(self.index as nat);
    }

    /// The text of the current token: what lies between its start and the
    /// cursor.
    pub fn slice(&self) -> (token: &str)
        requires
            self.wf(),
        ensures
            token@ == self.token_text(),
    {
        let ghost text = self.source@;
        let ghost from = self.start_index@ as int;
        let ghost to = self.index as int;
        proof {
            lemma_byte_offset_is_boundary(text, to);
            lemma_encode_split(text, to);
        }
        let (head, _) = self.source.split_at(self.current.0);
        proof {
            lemma_encode_injective(head@, text.take(to));
            assert(text.take(to).take(from) =~= text.take(from));
            lemma_byte_offset_is_boundary(head@, from);
            lemma_encode_split(head@, from);
        }
        let (_, token) = head.split_at(self.start.0);
        proof {
            lemma_encode_injective(token@, head@.skip(from));
            assert(text.take(to).skip(from) =~= text.subrange(from, to));
        }
        token
    }

    /// Consumes the next character and returns it; `None` at the end of the
    /// buffer. The cursor moves on by the width of the character's encoding.
    pub fn next(&mut self) -> (next: Option<char>)
        requires
            old(self).wf(),
        ensures
            next == old(self).peek_spec(),
            old(self).advanced_by(
                final(self),
                if next is Some {
                    1
                } else {
                    0
                },
            ),
            final(self).current_spec().0 == old(self).current_spec().0 + match next {
                Some(c) => utf8_width(c),
                None => 0,
            },
    {
        if self.index < self.chars.len() {
            let c = self.chars[self.index];
            proof {
                lemma_byte_offset_step(self.source@, self.index as int);
                lemma_byte_offset_monotonic(
                    self.source@,
                    self.index + 1,
                    self.source@.len() as int,
                );
                assert(self.source@.take(self.source@.len() as int) =~= self.source@);
            }
            self.current = self.current.shift(c);
            self.index += 1;
            Some(c)
        } else {
            None
        }
    }

    /// The next character, which stays unconsumed; `None` at the end of the
    /// buffer.
    pub fn peek(&mut self) -> (next: Option<&char>)
        requires
            old(self).wf(),
        ensures
            *final(self) == *old(self),
            match next {
                Some(c) => old(self).peek_spec() == Some(*c),
                None => old(self).peek_spec() is None,
            },
    {
        if self.index < self.chars.len() {
            Some(&self.chars[self.index])
        } else {
            None
        }
    }

    /// The character behind the next one, where there is one. Nothing is
    /// consumed, and what `peek` and `next` give stays as it was.
    pub fn peek_second(&self) -> (second: Option<char>)
        requires
            self.wf(),
        ensures
            second == self.lookahead(1),
    {
        self.look(1)
    }

    /// The character with index `i` among those not yet consumed.
    fn look(&self, i: usize) -> (c: Option<char>)
        requires
            self.wf(),
        ensures
            c == self.lookahead(i as nat),
    {
        if i < self.chars.len() - self.index {
            Some(self.chars[self.index + i])
        } else {
            None
        }
    }

    /// Consumes the next character if `predicate` holds of it, and says
    /// whether it did.
    pub fn consume_if(&mut self, predicate: impl Fn(char) -> bool) -> (consumed: bool)
        requires
            old(self).wf(),
            old(self).peek_spec() matches Some(c) ==> call_requires(predicate, (c,)),
        ensures
            old(self).advanced_by(
                final(self),
                if consumed {
                    1
                } else {
                    0
                },
            ),
            old(self).peek_spec() is None ==> !consumed,
            old(self).peek_spec() matches Some(c) ==> call_ensures(predicate, (c,), consumed),
    {
        if let Some(c) = self.look(0) {
            if predicate(c) {
                self.next();
                return true;
            }
        }
        false
    }

    /// Whether there is a next character and `predicate` holds of it. Nothing
    /// is consumed.
    pub fn if_next<P>(&mut self, predicate: P) -> (holds: bool) where P: Fn(char) -> bool
        requires
            old(self).wf(),
            old(self).peek_spec() matches Some(c) ==> call_requires(predicate, (c,)),
        ensures
            *final(self) == *old(self),
            old(self).peek_spec() is None ==> !holds,
            old(self).peek_spec() matches Some(c) ==> call_ensures(predicate, (c,), holds),
    {
        if let Some(c) = self.look(0) {
            predicate(c)
        } else {
            false
        }
    }

    /// Consumes the next character if there is one behind it of which
    /// `predicate` holds, and says whether it did.
    pub fn consume_if_next<P>(&mut self, predicate: P) -> (consumed: bool) where
        P: Fn(char) -> bool,

        requires
            old(self).wf(),
            old(self).lookahead(1) matches Some(c) ==> call_requires(predicate, (c,)),
        ensures
            old(self).advanced_by(
                final(self),
                if consumed {
                    1
                } else {
                    0
                },
            ),
            old(self).lookahead(1) is None ==> !consumed,
            old(self).lookahead(1) matches Some(c) ==> call_ensures(predicate, (c,), consumed),
    {
        match self.peek_second() {
            Some(c) => {
                if predicate(c) {
                    self.next();
                    return true;
                }
                return false;
            },
            None => return false,
        }
    }

    /// Consumes characters for as long as `predicate` holds of the next one,
    /// and returns them in order. The first character of which it does not
    /// hold stays unconsumed.
    pub fn consume_while<P>(&mut self, predicate: P) -> (consumed: Vec<char>) where
        P: Fn(char) -> bool,

        requires
            old(self).wf(),
            forall|i: int|
                old(self).consumed() <= i < old(self).text().len() ==> call_requires(
                    predicate,
                    (#[trigger] old(self).text()[i],),
                ),
        ensures
            old(self).advanced_by(final(self), consumed@.len()),
            consumed@ == old(self).text().subrange(
                old(self).consumed() as int,
                final(self).consumed() as int,
            ),
            forall|i: int|
                old(self).consumed() <= i < final(self).consumed() ==> call_ensures(
                    predicate,
                    (#[trigger] old(self).text()[i],),
                    true,
                ),
            final(self).peek_spec() matches Some(c) ==> call_ensures(predicate, (c,), false),
    {
        let mut consumed: Vec<char> = Vec::new();
        loop
            invariant
                old(self).advanced_by(self, consumed@.len()),
                consumed@ == old(self).text().subrange(
                    old(self).consumed() as int,
                    self.consumed() as int,
                ),
                forall|i: int|
                    old(self).consumed() <= i < old(self).text().len() ==> call_requires(
                        predicate,
                        (#[trigger] old(self).text()[i],),
                    ),
                forall|i: int|
                    old(self).consumed() <= i < self.consumed() ==> call_ensures(
                        predicate,
                        (#[trigger] old(self).text()[i],),
                        true,
                    ),
            ensures
                self.peek_spec() matches Some(c) ==> call_ensures(predicate, (c,), false),
            decreases self.text().len() - self.consumed(),
        {
            match self.look(0) {
                Some(c) => {
                    if predicate(c) {
                        consumed.push(c);
                        self.next();
                        assert(consumed@ =~= old(self).text().subrange(
                            old(self).consumed() as int,
                            self.consumed() as int,
                        ));
                    } else {
                        break;
                    }
                },
                None => {
                    break;
                },
            }
        }
        consumed
    }

    /// Consumes the next character if it is `expected`, and says whether it
    /// did.
    pub fn next_match(&mut self, expected: char) -> (matched: bool)
        requires
            old(self).wf(),
        ensures
            matched == (old(self).peek_spec() == Some(expected)),
            old(self).advanced_by(
                final(self),
                if matched {
                    1
                } else {
                    0
                },
            ),
    {
        match self.look(0) {
            Some(c) => {
                if c == expected {
                    self.next();
                    true
                } else {
                    false
                }
            },
            None => false,
        }
    }

    /// `token_type`, located at the current token.
    pub fn with_span<T>(&self, token_type: T) -> (token: WithSpan<T>)
        ensures
            token.value == token_type,
            token.span == (Span { start: self.start_spec(), end: self.current_spec() }),
    {
        WithSpan::new_unchecked(token_type, self.start.0, self.current.0)
    }

    /// The characters not yet consumed, in order.
    pub fn iterator(&self) -> (rest: Vec<char>)
        requires
            self.wf(),
        ensures
            rest@ == self.remaining(),
    {
        let mut rest: Vec<char> = Vec::new();
        let mut i: usize = self.index;
        while i < self.chars.len()
            invariant
                self.wf(),
                self.index <= i <= self.chars@.len(),
                rest@ == self.chars@.subrange(self.index as int, i as int),
            decreases self.chars@.len() - i,
        {
            rest.push(self.chars[i]);
            i += 1;
        }
        assert(self.chars@.subrange(self.index as int, i as int) =~= self.remaining());
        rest
    }
}

} // verus!
