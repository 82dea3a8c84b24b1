//! Location of a piece of source text.
use vstd::prelude::*;
use core::ops::Range;

verus! {

/// A half-open range of byte offsets into the source text.
#[derive(Debug, Clone, Copy, PartialEq, Eq, Structural)]
pub struct Span {
    pub(crate) lo: usize,  // inclusive
    pub(crate) hi: usize,  // exclusive
}

impl Span {
    #[verifier::type_invariant]
    spec fn ordered(self) -> bool {
        self.lo <= self.hi
    }

    /// Offset of the first byte.
    pub closed spec fn start(self) -> nat {
        self.lo as nat
    }

    /// Offset one past the last byte.
    pub closed spec fn end(self) -> nat {
        self.hi as nat
    }

    /// The span of `size` bytes that starts at `lo`.
    pub fn new(lo: usize, size: usize) -> (span: Self)
        requires
            lo + size <= usize::MAX,
        ensures
            span.start() == lo,
            span.end() == lo + size,
    {
        Self { lo, hi: lo + size }
    }

    #[inline(always)]
    pub fn low(&self) -> (lo: usize)
        ensures
            lo == self.start(),
    {
        self.lo
    }

    #[inline(always)]
    pub fn high(&self) -> (hi: usize)
        ensures
            hi == self.end(),
    {
        self.hi
    }

    #[inline(always)]
    pub fn size(&self) -> (size: usize)
        ensures
            size == self.end() - self.start(),
            self.start() <= self.end(),
    {
        proof {
            use_type_invariant(self);
        }
        self.hi - self.lo
    }

    pub fn as_range(&self) -> (range: Range<usize>)
        ensures
            range.start == self.start(),
            range.end == self.end(),
            range.start <= range.end,
    {
        proof {
            use_type_invariant(self);
        }
        self.lo..self.hi
    }
}

} // verus!
