//! Byte positions, spans over them, and values tagged with a span.

use vstd::prelude::*;
use vstd::std_specs::cmp::PartialOrdIs;
use vstd::std_specs::cmp::PartialOrdSpec;
use vstd::std_specs::convert::FromSpecImpl;

verus! {

/// Zero-based offset into a source buffer, counted in bytes.
pub type BytePos = usize;

/// A range of positions from `start` to `end`.
///
/// A span is in order when `start` does not lie after `end`; see
/// [`Span::is_ordered`]. Spans built by [`Span::new`] or [`Span::try_new`]
/// are in order. [`Span::new_unchecked`] stores what it is given.
#[derive(Debug, Clone)]
pub struct Span<I> {
    pub start: I,
    pub end: I,
}

impl<I: Ord> Span<I> {
    /// The span's invariant: `start <= end`.
    pub open spec fn is_ordered(&self) -> bool {
        self.start.is_le(&self.end)
    }

    /// Builds the span from `start` to `end`. The caller shows that the two
    /// are in order.
    pub fn new(start: I, end: I) -> (span: Span<I>)
        requires
            start.is_le(&end),
        ensures
            span.start == start,
            span.end == end,
            span.is_ordered(),
    {
        Span { start, end }
    }

    /// Builds the span from `start` to `end` if the two are in order, and
    /// nothing otherwise.
    pub fn try_new(start: I, end: I) -> (span: Option<Span<I>>)
        ensures
            I::obeys_partial_cmp_spec() ==> (span is Some <==> start.is_le(&end)),
            I::obeys_partial_cmp_spec() ==> (span matches Some(s) ==> s.is_ordered()),
            span matches Some(s) ==> s.start == start && s.end == end,
    {
        if start <= end {
            Some(Span { start, end })
        } else {
            None
        }
    }
}

impl<I> Span<I> {
    /// Builds the span from `start` to `end` without looking at their order.
    pub fn new_unchecked(start: I, end: I) -> (span: Span<I>)
        ensures
            span.start == start,
            span.end == end,
    {
        Span { start, end }
    }
}

/// A value together with the span of source text it comes from.
#[derive(Debug, Clone)]
pub struct Spanned<I, T> {
    pub span: Span<I>,
    pub value: T,
}

impl<I, T> From<(Span<I>, T)> for Spanned<I, T> {
    fn from(pair: (Span<I>, T)) -> (spanned: Spanned<I, T>) {
        Spanned { span: pair.0, value: pair.1 }
    }
}

impl<I, T> FromSpecImpl<(Span<I>, T)> for Spanned<I, T> {
    open spec fn obeys_from_spec() -> bool {
        true
    }

    open spec fn from_spec(pair: (Span<I>, T)) -> Spanned<I, T> {
        Spanned { span: pair.0, value: pair.1 }
    }
}

} // verus!
