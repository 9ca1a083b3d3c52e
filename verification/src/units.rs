//! Amounts of memory, counted in bytes and in pages of linear memory.
//!
//! The conversion of pages to bytes is that of the `memory_units` crate.
use memory_units::wasm32;
use vstd::prelude::*;

verus! {

/// An amount of memory in bytes.
#[derive(Clone, Copy, Debug, PartialEq, Eq, Structural)]
pub struct Bytes(pub usize);

/// An amount of memory in pages of linear memory.
#[derive(Clone, Copy, Debug, PartialEq, Eq, Structural)]
pub struct Pages(pub usize);

/// Size of a page of linear memory in bytes: 64KiB.
///
/// The size of a memory is always an integer multiple of the page size.
pub const LINEAR_MEMORY_PAGE_SIZE: usize = 65536;

/// The number of bytes in `pages` pages.
pub open spec fn bytes_in(pages: int) -> int {
    pages * 65536
}

/// Converts pages to bytes with `From<wasm32::Pages> for Bytes` of `memory_units`, which
/// multiplies the number of pages by 65536.
///
/// The multiplication is unchecked there, so the product must fit in a `usize`.
#[verifier::external_body]
fn pages_to_bytes(pages: Pages) -> (bytes: Bytes)
    requires
        bytes_in(pages.0 as int) <= usize::MAX,
    ensures
        bytes.0 == bytes_in(pages.0 as int),
{
    Bytes(memory_units::Bytes::from(wasm32::Pages(pages.0)).0)
}

impl Pages {
    /// The number of bytes in this many pages.
    pub fn into_bytes(self) -> (bytes: Bytes)
        requires
            bytes_in(self.0 as int) <= usize::MAX,
        ensures
            bytes.0 == bytes_in(self.0 as int),
    {
        pages_to_bytes(self)
    }
}

impl Bytes {
    /// The least number of pages that hold this many bytes.
    pub fn round_up_to(self) -> (pages: Pages)
        ensures
            bytes_in(pages.0 as int) >= self.0,
            bytes_in(pages.0 - 1) < self.0,
    {
        let whole: usize = self.0 / LINEAR_MEMORY_PAGE_SIZE;
        if self.0 % LINEAR_MEMORY_PAGE_SIZE == 0 {
            Pages(whole)
        } else {
            Pages(whole + 1)
        }
    }
}

} // verus!
