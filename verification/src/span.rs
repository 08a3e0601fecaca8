//! Byte ranges into the source text.

use vstd::prelude::*;
use vstd::utf8::is_char_boundary;
use vstd::string::StringSliceAdditionalSpecFns;

verus! {

/// A half-open range of byte offsets, `start..end`, into the source text.
#[derive(Debug, Clone, Copy, PartialEq, Eq, Structural)]
pub struct Span {
    /// The first byte of the range.
    pub start: usize,
    /// One past the last byte of the range.
    pub end: usize,
}

impl Span {
    /// The range `start..end`.
    pub fn new(start: usize, end: usize) -> (span: Span)
        ensures
            span.start == start,
            span.end == end,
    {
        Span { start, end }
    }

    /// The range from the start of `self` to the end of `other`.
    pub open spec fn spec_to(self, other: Span) -> Span {
        Span { start: self.start, end: other.end }
    }

    /// The range from the start of `self` to the end of `other`.
    #[verifier::when_used_as_spec(spec_to)]
    pub fn to(self, other: Span) -> (span: Span)
        ensures
            span.start == self.start,
            span.end == other.end,
            span == self.spec_to(other),
    {
        Span { start: self.start, end: other.end }
    }

    /// The text this range covers in `source`, if it lies within it on character boundaries.
    pub fn slice(self, source: &str) -> (text: Option<&str>)
        ensures
            text is Some <==> (self.start <= self.end <= source.spec_bytes().len()
                && is_char_boundary(source.spec_bytes(), self.end as int)
                && is_char_boundary(
                source.spec_bytes().subrange(0, self.end as int),
                self.start as int,
            )),
            text matches Some(t) ==> t.spec_bytes() == source.spec_bytes().subrange(
                self.start as int,
                self.end as int,
            ),
    {
        if self.start > self.end || self.end > source.as_bytes().len() {
            return None;
        }
        if !source.is_char_boundary(self.end) {
            return None;
        }
        let (head, _) = source.split_at(self.end);
        if !head.is_char_boundary(self.start) {
            return None;
        }
        let (_, middle) = head.split_at(self.start);
        proof {
            assert(middle.spec_bytes() =~= source.spec_bytes().subrange(
                self.start as int,
                self.end as int,
            ));
        }
        Some(middle)
    }
}

} // verus!
