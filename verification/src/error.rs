//! The error of memory operations and the texts that it carries.
use crate::text::append_decimal;
use vstd::prelude::*;

verus! {

/// Why an operation on a memory failed.
#[derive(Debug)]
pub enum Error {
    /// The operation does not fit the memory it was asked of; the text says how.
    Memory(String),
}

impl Error {
    /// The text that the error carries.
    pub open spec fn message(self) -> Seq<char> {
        match self {
            Error::Memory(text) => text@,
        }
    }
}

/// The text for an initial size that is no `u32`.
pub open spec fn initial_not_u32(initial: nat) -> Seq<char> {
    "initial ("@ + crate::text::decimal(initial) + ") can't be coerced to u32"@
}

/// The text for a maximum size that is no `u32`.
pub open spec fn maximum_not_u32(maximum: nat) -> Seq<char> {
    "maximum ("@ + crate::text::decimal(maximum) + ") can't be coerced to u32"@
}

/// The text for an initial size of more than `most` pages.
pub open spec fn initial_too_large(most: nat) -> Seq<char> {
    "initial memory size must be at most "@ + crate::text::decimal(most) + " pages"@
}

/// The text for a maximum size of more than `most` pages.
pub open spec fn maximum_too_large(most: nat) -> Seq<char> {
    "maximum memory size must be at most "@ + crate::text::decimal(most) + " pages"@
}

/// The text for an initial size above the maximum size.
pub open spec fn maximum_below_initial(maximum: nat, initial: nat) -> Seq<char> {
    "maximum limit "@ + crate::text::decimal(maximum) + " is less than minimum "@
        + crate::text::decimal(initial)
}

/// The text for a buffer that does not start at a page boundary.
pub open spec fn unaligned_buffer() -> Seq<char> {
    "Buffer address must be aligned to page size"@
}

/// The text for a buffer that is not a whole number of pages.
pub open spec fn uneven_size(size: nat) -> Seq<char> {
    "Size "@ + crate::text::decimal(size) + " must be multiple of page size"@
}

/// The text for a buffer of more than `most` pages.
pub open spec fn size_too_large(most: nat) -> Seq<char> {
    "Memory size must be at most "@ + crate::text::decimal(most) + " pages"@
}

/// The text for a growth that no memory could make.
pub open spec fn growth_too_large() -> Seq<char> {
    "Trying to grow memory by more than 65536 pages"@
}

/// The text for a growth beyond the maximum size.
pub open spec fn growth_over_limit(additional: nat, present: nat) -> Seq<char> {
    "Trying to grow memory by "@ + crate::text::decimal(additional)
        + " pages when already have "@ + crate::text::decimal(present)
}

/// The text for a region whose end is no `usize`.
pub open spec fn unaddressable_region(offset: nat, size: nat) -> Seq<char> {
    "trying to access memory block of size "@ + crate::text::decimal(size) + " from offset "@
        + crate::text::decimal(offset)
}

/// The text for a region that ends beyond the `used` bytes of a memory.
pub open spec fn region_out_of_bounds(offset: nat, end: nat, used: nat) -> Seq<char> {
    "trying to access region ["@ + crate::text::decimal(offset) + ".."@ + crate::text::decimal(end)
        + "] in memory [0.."@ + crate::text::decimal(used) + "]"@
}

/// The text for a copy between overlapping regions that must not overlap.
pub open spec fn overlapping_regions() -> Seq<char> {
    "non-overlapping copy is used for overlapping regions"@
}

/// `before`, the numeral of `n`, `after`.
fn one_numeral(before: &str, n: usize, after: &str) -> (text: String)
    ensures
        text@ == before@ + crate::text::decimal(n as nat) + after@,
{
    let mut text = before.to_owned();
    append_decimal(&mut text, n);
    text.append(after);
    text
}

/// `before`, the numeral of `m`, `between`, the numeral of `n`.
fn two_numerals(before: &str, m: usize, between: &str, n: usize) -> (text: String)
    ensures
        text@ == before@ + crate::text::decimal(m as nat) + between@ + crate::text::decimal(
            n as nat,
        ),
{
    let mut text = one_numeral(before, m, between);
    append_decimal(&mut text, n);
    text
}

impl Error {
    /// The error for an initial size that is no `u32`.
    pub(crate) fn initial_not_u32(initial: usize) -> (error: Error)
        ensures
            error.message() == self::initial_not_u32(initial as nat),
    {
        Error::Memory(one_numeral("initial (", initial, ") can't be coerced to u32"))
    }

    /// The error for a maximum size that is no `u32`.
    pub(crate) fn maximum_not_u32(maximum: usize) -> (error: Error)
        ensures
            error.message() == self::maximum_not_u32(maximum as nat),
    {
        Error::Memory(one_numeral("maximum (", maximum, ") can't be coerced to u32"))
    }

    /// The error for a buffer that does not start at a page boundary.
    pub(crate) fn unaligned_buffer() -> (error: Error)
        ensures
            error.message() == self::unaligned_buffer(),
    {
        Error::Memory("Buffer address must be aligned to page size".to_owned())
    }

    /// The error for a buffer that is not a whole number of pages.
    pub(crate) fn uneven_size(size: usize) -> (error: Error)
        ensures
            error.message() == self::uneven_size(size as nat),
    {
        Error::Memory(one_numeral("Size ", size, " must be multiple of page size"))
    }

    /// The error for a buffer of more than `most` pages.
    pub(crate) fn size_too_large(most: usize) -> (error: Error)
        ensures
            error.message() == self::size_too_large(most as nat),
    {
        Error::Memory(one_numeral("Memory size must be at most ", most, " pages"))
    }

    /// The error for a growth that no memory could make.
    pub(crate) fn growth_too_large() -> (error: Error)
        ensures
            error.message() == self::growth_too_large(),
    {
        Error::Memory("Trying to grow memory by more than 65536 pages".to_owned())
    }

    /// The error for a growth beyond the maximum size.
    pub(crate) fn growth_over_limit(additional: usize, present: usize) -> (error: Error)
        ensures
            error.message() == self::growth_over_limit(additional as nat, present as nat),
    {
        Error::Memory(
            two_numerals(
                "Trying to grow memory by ",
                additional,
                " pages when already have ",
                present,
            ),
        )
    }

    /// The error for a region whose end is no `usize`.
    pub(crate) fn unaddressable_region(offset: usize, size: usize) -> (error: Error)
        ensures
            error.message() == self::unaddressable_region(offset as nat, size as nat),
    {
        Error::Memory(
            two_numerals("trying to access memory block of size ", size, " from offset ", offset),
        )
    }

    /// The error for a region that ends beyond the `used` bytes of a memory.
    pub(crate) fn region_out_of_bounds(offset: usize, end: usize, used: usize) -> (error: Error)
        ensures
            error.message() == self::region_out_of_bounds(offset as nat, end as nat, used as nat),
    {
        let mut text = two_numerals("trying to access region [", offset, "..", end);
        text.append("] in memory [0..");
        append_decimal(&mut text, used);
        text.append("]");
        Error::Memory(text)
    }

    /// The error for a copy between overlapping regions that must not overlap.
    pub(crate) fn overlapping_regions() -> (error: Error)
        ensures
            error.message() == self::overlapping_regions(),
    {
        Error::Memory("non-overlapping copy is used for overlapping regions".to_owned())
    }
}

/// The text for an initial size of more than `most` pages, assembled.
pub(crate) fn initial_too_large_text(most: usize) -> (text: String)
    ensures
        text@ == initial_too_large(most as nat),
{
    one_numeral("initial memory size must be at most ", most, " pages")
}

/// The text for a maximum size of more than `most` pages, assembled.
pub(crate) fn maximum_too_large_text(most: usize) -> (text: String)
    ensures
        text@ == maximum_too_large(most as nat),
{
    one_numeral("maximum memory size must be at most ", most, " pages")
}

/// The text for an initial size above the maximum size, assembled.
pub(crate) fn maximum_below_initial_text(maximum: usize, initial: usize) -> (text: String)
    ensures
        text@ == maximum_below_initial(maximum as nat, initial as nat),
{
    two_numerals("maximum limit ", maximum, " is less than minimum ", initial)
}

} // verus!
