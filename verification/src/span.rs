//! Source locations.

use vstd::prelude::*;

verus! {

/// A range of byte offsets in the source text: `start` inclusive, `end` exclusive.
#[derive(Debug, Clone, Copy, PartialEq, Eq, Structural, Hash)]
pub struct Span {
    pub start: usize,
    pub end: usize,
}

impl Span {
    /// A span from `start` to `end`.
    pub fn new(start: usize, end: usize) -> (s: Span)
        ensures
            s.start == start,
            s.end == end,
    {
        Span { start, end }
    }

    /// The span that generated code carries: it starts and ends at offset zero.
    pub fn dummy() -> (s: Span)
        ensures
            s.start == 0,
            s.end == 0,
    {
        Span { start: 0, end: 0 }
    }

    /// The smallest span that covers both spans.
    pub fn merge(self, other: Span) -> (s: Span)
        ensures
            s.start == if self.start <= other.start { self.start } else { other.start },
            s.end == if self.end >= other.end { self.end } else { other.end },
    {
        let start = if self.start <= other.start { self.start } else { other.start };
        let end = if self.end >= other.end { self.end } else { other.end };
        Span { start, end }
    }

    /// The number of bytes the span covers.
    pub fn len(&self) -> (n: usize)
        requires
            self.start <= self.end,
        ensures
            n == self.end - self.start,
    {
        self.end - self.start
    }

    /// Whether the span covers no byte.
    pub fn is_empty(&self) -> (b: bool)
        ensures
            b == (self.start == self.end),
    {
        self.start == self.end
    }

    /// Whether this is the span of generated code.
    pub fn is_dummy(&self) -> (b: bool)
        ensures
            b == (self.start == 0 && self.end == 0),
    {
        self.start == 0 && self.end == 0
    }
}

impl Default for Span {
    /// The default span is the span of generated code, from offset zero to offset zero.
    fn default() -> (s: Span)
        ensures
            s.start == 0,
            s.end == 0,
    {
        Span::dummy()
    }
}

/// A value together with the span it came from.
#[derive(Debug, Clone, PartialEq, Eq, Hash)]
pub struct Spanned<T> {
    pub value: T,
    pub span: Span,
}

impl<T> Spanned<T> {
    /// Pair a value with a span.
    pub fn new(value: T, span: Span) -> (s: Spanned<T>)
        ensures
            s.value == value,
            s.span == span,
    {
        Spanned { value, span }
    }

    /// Apply `f` to the value and keep the span.
    pub fn map<U, F: FnOnce(T) -> U>(self, f: F) -> (s: Spanned<U>)
        requires
            f.requires((self.value,)),
        ensures
            f.ensures((self.value,), s.value),
            s.span == self.span,
    {
        Spanned { value: f(self.value), span: self.span }
    }
}

/// Merging is commutative, and the merged span covers both spans.
pub proof fn law_merge_covers(a: Span, b: Span)
    ensures
        a.merge_spec(b) == b.merge_spec(a),
        a.merge_spec(b).start <= a.start,
        a.merge_spec(b).start <= b.start,
        a.merge_spec(b).end >= a.end,
        a.merge_spec(b).end >= b.end,
{
}

impl Span {
    /// The span that `merge` returns.
    pub open spec fn merge_spec(self, other: Span) -> Span {
        Span {
            start: if self.start <= other.start { self.start } else { other.start },
            end: if self.end >= other.end { self.end } else { other.end },
        }
    }
}

} // verus!
