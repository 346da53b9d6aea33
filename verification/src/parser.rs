//! A forward-only cursor over a finished sequence of located tokens.

use crate::position::span::{Span, WithSpan};
use vstd::prelude::*;
use vstd::std_specs::cmp::PartialEqSpec;

verus! {

/// A token that can tell its kind: what it is, without what it carries.
///
/// The cursor's contracts speak of `kind_of`. They hold of an implementation
/// whose `to_kind` returns `kind_of`: one written in verified code is held to
/// that, one written elsewhere is taken at its word.
pub trait Token {
    /// The kinds of this vocabulary, compared by value.
    type Kind: PartialEq;

    /// The kind of this token: what `to_kind` computes. An implementation
    /// that states it gives its own definition.
    open spec fn kind_of(&self) -> Self::Kind {
        arbitrary()
    }

    /// Computes the kind of this token.
    fn to_kind(&self) -> (kind: Self::Kind)
        ensures
            kind == self.kind_of(),
    ;
}

/// A vocabulary with a kind that stands for the end of the input.
///
/// As with `Token`, an implementation written outside verified code is taken
/// at its word that `eof` and `eof_kind` agree with `eof_kind_spec`.
pub trait EndOfFile: Token + Sized {
    /// The kind that stands for the end of the input: what `eof_kind`
    /// computes. An implementation that states it gives its own definition.
    open spec fn eof_kind_spec() -> Self::Kind {
        arbitrary()
    }

    /// A token of the end-of-input kind.
    fn eof() -> (token: Self)
        ensures
            token.kind_of() == Self::eof_kind_spec(),
    ;

    /// Computes the end-of-input kind.
    fn eof_kind() -> (kind: Self::Kind)
        ensures
            kind == Self::eof_kind_spec(),
    ;
}

/// `==` on values of `K` is equality of values.
pub open spec fn compares_by_value<K: PartialEq>() -> bool {
    &&& K::obeys_eq_spec()
    &&& forall|a: K, b: K| #[trigger] a.eq_spec(&b) == (a == b)
}

/// Whether `kind` occurs in `kinds`.
fn kind_in<K: PartialEq>(kinds: &[K], kind: &K) -> (found: bool)
    requires
        compares_by_value::<K>(),
    ensures
        found == kinds@.contains(*kind),
{
    let mut i: usize = 0;
    while i < kinds.len()
        invariant
            i <= kinds@.len(),
            compares_by_value::<K>(),
            forall|j: int| 0 <= j < i ==> kinds@[j] != *kind,
        decreases kinds@.len() - i,
    {
        if kinds[i] == *kind {
            return true;
        }
        i += 1;
    }
    false
}

/// The union of the spans of `tokens[from..to]`, or `None` for an empty range.
pub open spec fn union_of_spans<T>(tokens: Seq<WithSpan<T>>, from: int, to: int) -> Option<Span>
    recommends
        0 <= from,
        to <= tokens.len(),
    decreases to - from,
{
    if to <= from {
        None
    } else {
        match union_of_spans(tokens, from, to - 1) {
            None => Some(tokens[to - 1].span),
            Some(s) => Some(s.union_spec(tokens[to - 1].span)),
        }
    }
}

/// The union of the spans of a range that is not empty starts at the least
/// start among them and ends at the greatest end.
pub proof fn lemma_union_of_spans_bounds<T>(tokens: Seq<WithSpan<T>>, from: int, to: int)
    requires
        0 <= from < to <= tokens.len(),
    ensures
        union_of_spans(tokens, from, to) matches Some(u) && {
            &&& forall|i: int|
                from <= i < to ==> u.start.0 <= (#[trigger] tokens[i]).span.start.0
                    && tokens[i].span.end.0 <= u.end.0
            &&& exists|i: int| from <= i < to && (#[trigger] tokens[i]).span.start == u.start
            &&& exists|i: int| from <= i < to && (#[trigger] tokens[i]).span.end == u.end
        },
    decreases to - from,
{
    let last = tokens[to - 1];
    let u = union_of_spans(tokens, from, to).unwrap();
    if to - 1 > from {
        lemma_union_of_spans_bounds(tokens, from, to - 1);
        let before = union_of_spans(tokens, from, to - 1).unwrap();
        let i_start = choose|i: int|
            from <= i < to - 1 && (#[trigger] tokens[i]).span.start == before.start;
        let i_end = choose|i: int|
            from <= i < to - 1 && (#[trigger] tokens[i]).span.end == before.end;
        if before.start.0 <= last.span.start.0 {
            assert(tokens[i_start].span.start == u.start);
        } else {
            assert(tokens[to - 1].span.start == u.start);
        }
        if before.end.0 >= last.span.end.0 {
            assert(tokens[i_end].span.end == u.end);
        } else {
            assert(tokens[to - 1].span.end == u.end);
        }
    } else {
        assert(union_of_spans(tokens, from, to - 1) is None);
        assert(tokens[to - 1].span.start == u.start);
        assert(tokens[to - 1].span.end == u.end);
    }
}

/// A cursor over `tokens` that reads the sentinel wherever it stands behind
/// the last of them.
pub struct Parser<'a, T> where T: Token + EndOfFile {
    current: usize,
    tokens: &'a [WithSpan<T>],
    eof_token: &'a WithSpan<T>,
}

impl<'a, T> Parser<'a, T> where T: Token + EndOfFile {
    /// The number of tokens consumed so far.
    pub closed spec fn cursor(&self) -> nat {
        self.current as nat
    }

    /// The token sequence that the cursor runs over.
    pub closed spec fn tokens(&self) -> Seq<WithSpan<T>> {
        self.tokens@
    }

    /// The token that is read behind the end of the sequence.
    pub closed spec fn sentinel(&self) -> WithSpan<T> {
        *self.eof_token
    }

    /// Kinds compare by value, the cursor stands inside the sequence or just
    /// behind it, and the sentinel is of the end-of-input kind.
    pub open spec fn wf(&self) -> bool {
        &&& compares_by_value::<T::Kind>()
        &&& self.cursor() <= self.tokens().len()
        &&& self.sentinel().value.kind_of() == T::eof_kind_spec()
    }

    /// The token read at index `i`: the sentinel outside the sequence.
    pub open spec fn token_at(&self, i: int) -> WithSpan<T> {
        if 0 <= i < self.tokens().len() {
            self.tokens()[i]
        } else {
            self.sentinel()
        }
    }

    /// The kind read at index `i`.
    pub open spec fn kind_at(&self, i: int) -> T::Kind {
        self.token_at(i).value.kind_of()
    }

    /// The token at the cursor.
    pub open spec fn peek_token_spec(&self) -> WithSpan<T> {
        self.token_at(self.cursor() as int)
    }

    /// The kind at the cursor.
    pub open spec fn peek_spec(&self) -> T::Kind {
        self.kind_at(self.cursor() as int)
    }

    /// The token consumed last; the sentinel before the first.
    pub open spec fn previous_spec(&self) -> WithSpan<T> {
        self.token_at(self.cursor() - 1)
    }

    /// The kind at the cursor is the end-of-input kind.
    pub open spec fn at_end_spec(&self) -> bool {
        self.peek_spec() == T::eof_kind_spec()
    }

    /// The kind at the cursor is `kind`, and is not the end-of-input kind.
    pub open spec fn check_spec(&self, kind: T::Kind) -> bool {
        !self.at_end_spec() && kind == self.peek_spec()
    }

    /// `next` is `self` with one more token consumed, unless `self` is at
    /// the end, where it is `self`.
    pub open spec fn advanced_to(&self, next: &Self) -> bool {
        &&& next.tokens() == self.tokens()
        &&& next.sentinel() == self.sentinel()
        &&& next.cursor() == if self.at_end_spec() {
            self.cursor()
        } else {
            self.cursor() + 1
        }
    }

    /// The token at index `i` stops a skip towards one of `stops`.
    pub open spec fn stops_at(&self, i: int, stops: Seq<T::Kind>) -> bool {
        self.kind_at(i) == T::eof_kind_spec() || stops.contains(self.kind_at(i))
    }

    /// Over an empty sequence the cursor is at the end at once, and the kind
    /// read there is the sentinel's.
    pub proof fn lemma_empty_stream_is_at_end(&self)
        requires
            self.wf(),
            self.tokens().len() == 0,
        ensures
            self.at_end_spec(),
            self.peek_spec() == self.sentinel().value.kind_of(),
    {
    }

    /// Behind the last token the cursor is at the end: the sentinel is read.
    pub proof fn lemma_past_last_is_at_end(&self)
        requires
            self.wf(),
            self.cursor() == self.tokens().len(),
        ensures
            self.at_end_spec(),
            self.peek_token_spec() == self.sentinel(),
    {
    }

    /// A cursor at the start of `tokens`, with `eof_token` as the sentinel.
    /// Kinds have to compare by value, and the sentinel has to be of the
    /// end-of-input kind.
    pub fn new(tokens: &'a [WithSpan<T>], eof_token: &'a WithSpan<T>) -> (parser: Self)
        requires
            compares_by_value::<T::Kind>(),
            eof_token.value.kind_of() == T::eof_kind_spec(),
        ensures
            parser.wf(),
            parser.cursor() == 0,
            parser.tokens() == tokens@,
            parser.sentinel() == *eof_token,
    {
        Parser { current: 0, tokens: tokens, eof_token: eof_token }
    }

    /// The kind at the cursor; the cursor stays.
    pub fn peek(&self) -> (kind: T::Kind)
        requires
            self.wf(),
        ensures
            kind == self.peek_spec(),
    {
        self.peek_token().value.to_kind()
    }

    /// The token at the cursor; the cursor stays.
    pub fn peek_token(&self) -> (token: &'a WithSpan<T>)
        requires
            self.wf(),
        ensures
            *token == self.peek_token_spec(),
    {
        if self.current < self.tokens.len() {
            &self.tokens[self.current]
        } else {
            self.eof_token
        }
    }

    /// The token consumed last, or the sentinel where none was.
    pub fn previous(&self) -> (token: &'a WithSpan<T>)
        requires
            self.wf(),
        ensures
            *token == self.previous_spec(),
    {
        if self.current == 0 {
            self.eof_token
        } else {
            &self.tokens[self.current - 1]
        }
    }

    /// Whether the kind at the cursor is the end-of-input kind.
    pub fn is_at_end(&self) -> (at_end: bool)
        requires
            self.wf(),
        ensures
            at_end == self.at_end_spec(),
            self.cursor() == self.tokens().len() ==> at_end,
    {
        self.peek() == T::eof_kind()
    }

    /// Whether the cursor is not at the end and the kind there is `token`.
    pub fn check(&self, token: T::Kind) -> (matches: bool)
        requires
            self.wf(),
        ensures
            matches == self.check_spec(token),
    {
        if self.is_at_end() {
            false
        } else {
            token == self.peek()
        }
    }

    /// Whether the kind at the cursor is one of `tokens`, at the end too.
    pub fn check_one_of(&mut self, tokens: &[T::Kind]) -> (found: bool)
        requires
            old(self).wf(),
        ensures
            *final(self) == *old(self),
            found == tokens@.contains(old(self).peek_spec()),
    {
        let kind = self.peek();
        kind_in(tokens, &kind)
    }

    /// Consumes the token at the cursor unless the cursor is at the end, and
    /// returns the token that was consumed last.
    pub fn advance(&mut self) -> (token: &'a WithSpan<T>)
        requires
            old(self).wf(),
        ensures
            final(self).wf(),
            old(self).advanced_to(final(self)),
            *token == final(self).previous_spec(),
    {
        if !self.is_at_end() {
            assert(self.tokens@.len() == vstd::slice::spec_slice_len(self.tokens));
            self.current += 1;
        }
        self.previous()
    }

    /// Consumes the token at the cursor if its kind is one of `tokens` and not
    /// the end-of-input kind, and says whether it did.
    pub fn is_one_of(&mut self, tokens: Vec<T::Kind>) -> (consumed: bool)
        requires
            old(self).wf(),
        ensures
            final(self).wf(),
            consumed == (!old(self).at_end_spec() && tokens@.contains(old(self).peek_spec())),
            consumed ==> old(self).advanced_to(final(self)),
            !consumed ==> *final(self) == *old(self),
    {
        if self.is_at_end() {
            return false;
        }
        let kind = self.peek();
        if kind_in(tokens.as_slice(), &kind) {
            self.advance();
            true
        } else {
            false
        }
    }

    /// Consumes the token at the cursor if `check(token)` holds, and says
    /// whether it did.
    pub fn is(&mut self, token: T::Kind) -> (consumed: bool)
        requires
            old(self).wf(),
        ensures
            final(self).wf(),
            consumed == old(self).check_spec(token),
            consumed ==> old(self).advanced_to(final(self)),
            !consumed ==> *final(self) == *old(self),
    {
        if self.check(token) {
            self.advance();
            return true;
        }
        false
    }

    /// As `is`, under the name that reads well where the token may be absent.
    pub fn optional(&mut self, token: T::Kind) -> (consumed: bool)
        requires
            old(self).wf(),
        ensures
            final(self).wf(),
            consumed == old(self).check_spec(token),
            consumed ==> old(self).advanced_to(final(self)),
            !consumed ==> *final(self) == *old(self),
    {
        if self.check(token) {
            self.advance();
            return true;
        }
        false
    }

    /// Skips tokens up to the first whose kind is one of `tokens` or the
    /// end-of-input kind, and returns the union of the skipped tokens' spans:
    /// `None` where the cursor already stood at such a token.
    pub fn drop_until(&mut self, tokens: &[T::Kind]) -> (dropped: Option<Span>)
        requires
            old(self).wf(),
        ensures
            final(self).wf(),
            final(self).tokens() == old(self).tokens(),
            final(self).sentinel() == old(self).sentinel(),
            old(self).cursor() <= final(self).cursor(),
            forall|i: int|
                old(self).cursor() <= i < final(self).cursor() ==> !old(self).stops_at(i, tokens@),
            old(self).stops_at(final(self).cursor() as int, tokens@),
            dropped == union_of_spans(
                old(self).tokens(),
                old(self).cursor() as int,
                final(self).cursor() as int,
            ),
            old(self).stops_at(old(self).cursor() as int, tokens@) ==> {
                &&& dropped is None
                &&& final(self).cursor() == old(self).cursor()
            },
            dropped is None <==> final(self).cursor() == old(self).cursor(),
    {
        let mut dropped_span: Option<Span> = None;
        loop
            invariant
                self.wf(),
                self.tokens() == old(self).tokens(),
                self.sentinel() == old(self).sentinel(),
                old(self).cursor() <= self.cursor(),
                forall|i: int|
                    old(self).cursor() <= i < self.cursor() ==> !old(self).stops_at(i, tokens@),
                dropped_span == union_of_spans(
                    old(self).tokens(),
                    old(self).cursor() as int,
                    self.cursor() as int,
                ),
            ensures
                old(self).stops_at(self.cursor() as int, tokens@),
            decreases self.tokens().len() - self.cursor(),
        {
            if self.is_at_end() {
                break;
            }
            let kind = self.peek();
            if kind_in(tokens, &kind) {
                break;
            }
            let token = self.advance();
            dropped_span = match dropped_span {
                Some(s) => Some(s.union(&token.span)),
                None => Some(token.span),
            };
        }
        dropped_span
    }
}

} // verus!
