//! Spans of source text and values that carry one.

use super::bytepos::BytePos;
use vstd::prelude::*;

verus! {

/// Something that knows where in the source text it came from.
pub trait GetSpan {
    fn get_span(&self) -> Span;
}

/// Something whose place in the source text can be replaced.
pub trait SetSpan {
    fn set_span(&mut self, span: Span);
}

/// A range of byte positions: `start` belongs to it, `end` does not.
#[derive(Debug, Clone, Copy, PartialEq, PartialOrd, Eq, Ord, Hash, Structural)]
pub struct Span {
    pub start: BytePos,
    pub end: BytePos,
}

impl Span {
    /// The span runs forward: its start does not lie behind its end.
    pub open spec fn wf(&self) -> bool {
        self.start.0 <= self.end.0
    }

    /// The span from `start` to `end`, whatever their order.
    pub open spec fn of(start: usize, end: usize) -> Span {
        Span { start: BytePos(start), end: BytePos(end) }
    }

    /// The smallest span that covers `self` and `other`.
    pub open spec fn union_spec(self, other: Span) -> Span {
        Span {
            start: if self.start.0 <= other.start.0 { self.start } else { other.start },
            end: if self.end.0 >= other.end.0 { self.end } else { other.end },
        }
    }

    /// `self`, grown on either side until it reaches `pos`.
    pub open spec fn extend_spec(self, pos: BytePos) -> Span {
        Span {
            start: if self.start.0 > pos.0 { pos } else { self.start },
            end: if self.end.0 < pos.0 { pos } else { self.end },
        }
    }

    /// Half-open membership: `start <= offset < end`.
    pub open spec fn contains_spec(self, offset: usize) -> bool {
        self.start.0 <= offset < self.end.0
    }

    /// Overlap of the two ranges taken as closed intervals, so that spans
    /// that merely touch count as intersecting.
    pub open spec fn intersects_spec(self, other: Span) -> bool {
        self.start.0 <= other.end.0 && self.end.0 >= other.start.0
    }

    /// The span from `start` to `end`, or `None` when `start` lies behind `end`.
    pub fn new(start: usize, end: usize) -> (span: Option<Span>)
        ensures
            start > end ==> span is None,
            start <= end ==> span == Some(Span::of(start, end)),
    {
        if start > end {
            None
        } else {
            Some(Span { start: BytePos(start), end: BytePos(end) })
        }
    }

    /// The zero-length span at `pos`.
    pub fn point(pos: usize) -> (span: Span)
        ensures
            span == Span::of(pos, pos),
    {
        Span { start: BytePos(pos), end: BytePos(pos) }
    }

    /// The span from `start` to `end`; the order of the two is not looked at.
    pub fn new_unchecked(start: usize, end: usize) -> (span: Span)
        ensures
            span == Span::of(start, end),
    {
        Span { start: BytePos(start), end: BytePos(end) }
    }

    /// The zero-length span at the start of the buffer.
    pub fn empty() -> (span: Span)
        ensures
            span == Span::of(0, 0),
    {
        Span { start: BytePos(0), end: BytePos(0) }
    }

    /// The smallest span that covers both.
    pub fn union(&self, other: &Self) -> (span: Span)
        ensures
            span == self.union_spec(*other),
    {
        Span {
            start: if self.start.0 <= other.start.0 { self.start } else { other.start },
            end: if self.end.0 >= other.end.0 { self.end } else { other.end },
        }
    }

    /// The union with `other` where there is one, else `self`.
    pub fn maybe_union(&self, other: &Option<Self>) -> (span: Span)
        ensures
            span == match *other {
                Some(o) => self.union_spec(o),
                None => *self,
            },
    {
        match other {
            Some(other) => self.union(other),
            None => *self,
        }
    }

    /// The span grown to reach `pos`.
    pub fn extend(&self, pos: &BytePos) -> (span: Span)
        ensures
            span == self.extend_spec(*pos),
    {
        let mut span = *self;
        if span.start.0 > pos.0 {
            span.start = *pos;
        }
        if span.end.0 < pos.0 {
            span.end = *pos;
        }
        span
    }

    /// The offset of the first byte.
    pub fn start(&self) -> (offset: usize)
        ensures
            offset == self.start.0,
    {
        self.start.0
    }

    /// The offset just behind the last byte.
    pub fn end(&self) -> (offset: usize)
        ensures
            offset == self.end.0,
    {
        self.end.0
    }

    /// The number of bytes covered.
    pub fn len(&self) -> (n: usize)
        requires
            self.wf(),
        ensures
            n == self.end.0 - self.start.0,
    {
        self.end.0 - self.start.0
    }

    /// Whether `offset` lies in the span; the end does not.
    pub fn contains(&self, offset: usize) -> (inside: bool)
        ensures
            inside == self.contains_spec(offset),
    {
        offset >= self.start.0 && offset < self.end.0
    }

    /// Whether the two spans overlap or touch.
    pub fn intersects(&self, other: &Self) -> (overlap: bool)
        ensures
            overlap == self.intersects_spec(*other),
    {
        self.start.0 <= other.end.0 && self.end.0 >= other.start.0
    }
}

/// Union does not depend on the order of its arguments.
pub proof fn lemma_union_commutes(a: Span, b: Span)
    ensures
        a.union_spec(b) == b.union_spec(a),
{
}

/// Every offset that lies in one of two spans lies in their union.
pub proof fn lemma_union_covers(a: Span, b: Span, offset: usize)
    requires
        a.contains_spec(offset) || b.contains_spec(offset),
    ensures
        a.union_spec(b).contains_spec(offset),
{
}

/// The union of two forward-running spans runs forward.
pub proof fn lemma_union_wf(a: Span, b: Span)
    requires
        a.wf(),
        b.wf(),
    ensures
        a.union_spec(b).wf(),
{
}

/// Extending a span to a position is the union with the point span there.
pub proof fn lemma_extend_is_union_with_point(s: Span, p: BytePos)
    ensures
        s.extend_spec(p) == s.union_spec(Span::of(p.0, p.0)),
{
}

/// A value together with the span of source text it was read from.
#[derive(Debug, PartialEq, Clone)]
pub struct WithSpan<T> {
    pub value: T,
    pub span: Span,
}

impl<T> From<WithSpan<T>> for Span {
    /// The span of a located value.
    fn from(with_span: WithSpan<T>) -> (span: Span) {
        with_span.span
    }
}

impl<T> vstd::std_specs::convert::FromSpecImpl<WithSpan<T>> for Span {
    open spec fn obeys_from_spec() -> bool {
        true
    }

    open spec fn from_spec(with_span: WithSpan<T>) -> Span {
        with_span.span
    }
}

impl<'a, T> From<&'a WithSpan<T>> for Span {
    /// The span of a located value.
    fn from(with_span: &'a WithSpan<T>) -> (span: Span) {
        with_span.span
    }
}

impl<'a, T> vstd::std_specs::convert::FromSpecImpl<&'a WithSpan<T>> for Span {
    open spec fn obeys_from_spec() -> bool {
        true
    }

    open spec fn from_spec(with_span: &'a WithSpan<T>) -> Span {
        with_span.span
    }
}

impl<T> GetSpan for WithSpan<T> {
    fn get_span(&self) -> (span: Span)
        ensures
            span == self.span,
    {
        self.span
    }
}

impl<T> SetSpan for WithSpan<T> {
    fn set_span(&mut self, span: Span)
        ensures
            final(self).span == span,
            final(self).value == old(self).value,
    {
        self.span = span;
    }
}

impl<T> WithSpan<T> {
    /// `value`, located at `span`.
    pub fn new(value: T, span: Span) -> (spanned: Self)
        ensures
            spanned.value == value,
            spanned.span == span,
    {
        WithSpan { value, span }
    }

    /// `value`, located at the zero-length span at the start of the buffer.
    pub fn empty(value: T) -> (spanned: Self)
        ensures
            spanned.value == value,
            spanned.span == Span::of(0, 0),
    {
        WithSpan { value, span: Span { start: BytePos(0), end: BytePos(0) } }
    }

    /// `value`, located from `start` to `end`; their order is not looked at.
    pub fn new_unchecked(value: T, start: usize, end: usize) -> (spanned: Self)
        ensures
            spanned.value == value,
            spanned.span == Span::of(start, end),
    {
        WithSpan { value, span: Span { start: BytePos(start), end: BytePos(end) } }
    }

    /// The same span around a reference to the value.
    pub fn as_ref(&self) -> (spanned: WithSpan<&T>)
        ensures
            *spanned.value == self.value,
            spanned.span == self.span,
    {
        WithSpan { span: self.span, value: &self.value }
    }
}

} // verus!
