//! Regions of a memory that are known to lie within it.
use core::ops::Range;
use vstd::prelude::*;

verus! {

/// Byte `i` lies among the `size` bytes from `offset` on.
pub open spec fn in_region(i: int, offset: int, size: int) -> bool {
    offset <= i < offset + size
}

/// Some byte lies both among the `size1` bytes from `offset1` on and among the `size2` bytes from
/// `offset2` on.
pub open spec fn overlapping(offset1: int, size1: int, offset2: int, size2: int) -> bool {
    exists|i: int| #[trigger] in_region(i, offset1, size1) && in_region(i, offset2, size2)
}

/// `size` bytes of a memory, from byte `offset` on.
#[derive(Clone, Copy, Debug)]
pub struct CheckedRegion {
    /// The first byte.
    pub offset: usize,
    /// The number of bytes.
    pub size: usize,
}

impl CheckedRegion {
    /// The byte after the last.
    pub open spec fn end(self) -> int {
        self.offset + self.size
    }

    /// The indices of the region's bytes.
    pub fn range(&self) -> (range: Range<usize>)
        requires
            self.end() <= usize::MAX,
        ensures
            range.start == self.offset,
            range.end == self.end(),
    {
        self.offset..self.offset + self.size
    }

    /// Whether the two regions have a byte in common.
    pub fn intersects(&self, other: &Self) -> (common: bool)
        requires
            self.end() <= usize::MAX,
            other.end() <= usize::MAX,
        ensures
            common == overlapping(
                self.offset as int,
                self.size as int,
                other.offset as int,
                other.size as int,
            ),
    {
        let low: usize = if self.offset < other.offset {
            other.offset
        } else {
            self.offset
        };
        let self_end: usize = self.offset + self.size;
        let other_end: usize = other.offset + other.size;
        let high: usize = if self_end < other_end {
            self_end
        } else {
            other_end
        };
        proof {
            if low < high {
                assert(in_region(low as int, self.offset as int, self.size as int));
                assert(in_region(low as int, other.offset as int, other.size as int));
            }
        }
        low < high
    }
}

} // verus!
