//! How sizes and regions are counted, which requests are refused, and what a refusal says.
use crate::error::Error;
use crate::memory::MemoryInstance;
use crate::region::CheckedRegion;
use crate::state::MemoryState;
use crate::units::Pages;
use vstd::prelude::*;

verus! {

/// No pages are no bytes, and every further page is 65536 bytes more. The most pages that a memory
/// can have are as many bytes as a 32-bit address reaches.
pub proof fn pages_are_64_kib(pages: int)
    ensures
        crate::units::LINEAR_MEMORY_PAGE_SIZE == 65536,
        crate::units::LINEAR_MEMORY_PAGE_SIZE * crate::validation::LINEAR_MEMORY_MAX_PAGES
            == 0x1_0000_0000,
        crate::units::bytes_in(0) == 0,
        crate::units::bytes_in(pages + 1) == crate::units::bytes_in(pages) + 65536,
        crate::units::bytes_in(pages) == 65536 * pages,
{
}

/// The number of pages that a memory has is its size in bytes divided by 65536, without a
/// remainder. Every byte has an address, and storage that was given is all of the memory.
pub proof fn size_is_whole_pages(memory: MemoryInstance)
    requires
        memory.wf(),
    ensures
        memory@.pages() == memory@.size / 65536,
        memory@.size % 65536 == 0,
        memory@.size <= usize::MAX,
        !memory@.growable ==> memory@.stored.len() == memory@.size,
{
    memory.lemma_wf_is_valid();
}

/// A region ends as many bytes after its start as it has.
pub proof fn region_has_its_size(region: CheckedRegion)
    ensures
        region.end() - region.offset == region.size,
{
}

/// An optional amount of pages counts as many pages as it holds, and none if it holds none.
pub proof fn optional_amounts(pages: Option<Pages>, limit: Option<u32>)
    ensures
        crate::memory::page_count(pages) == match pages {
            Some(amount) => Some(amount.0 as nat),
            None => None::<nat>,
        },
        crate::validation::limit_count(limit) == match limit {
            Some(amount) => Some(amount as nat),
            None => None::<nat>,
        },
{
}

/// The message of an error is the text that it carries.
pub proof fn message_is_text(error: Error)
    ensures
        error matches Error::Memory(text) ==> error.message() == text@,
{
}

/// Limits are valid if and only if the initial size is at most 65536 pages and, where there is a
/// maximum, the maximum is at least the initial size and at most 65536 pages. A memory can be
/// allocated with exactly these limits.
pub proof fn valid_limits(initial: nat, maximum: Option<nat>)
    ensures
        ({
            let within = initial <= 65536 && match maximum {
                Some(most) => initial <= most && most <= 65536,
                None => true,
            };
            &&& crate::validation::limits_valid(initial, maximum) <==> within
            &&& crate::validation::limits_defect(initial, maximum) is None <==> within
            &&& crate::memory::alloc_defect(initial, maximum) is None <==> within
        }),
{
}

/// Raising the initial size never makes invalid limits valid, and neither does setting a maximum.
/// The largest initial size that a maximum of at most 65536 pages allows is the maximum itself.
pub proof fn limits_are_monotonic(initial: nat, larger: nat, most: nat)
    requires
        initial <= larger,
        most <= 65536,
    ensures
        crate::validation::limits_valid(larger, Some(most)) ==> crate::validation::limits_valid(
            initial,
            Some(most),
        ),
        crate::validation::limits_valid(larger, None) ==> crate::validation::limits_valid(
            initial,
            None,
        ),
        crate::validation::limits_valid(initial, Some(most)) ==> crate::validation::limits_valid(
            initial,
            None,
        ),
        crate::validation::limits_valid(most, Some(most)),
        !crate::validation::limits_valid(most + 1, Some(most)),
{
}

/// A refused allocation says which of the limits is at fault. A size that is no `u32` is told
/// first, the initial one before the maximum; then an initial size of too many pages, an initial
/// size above the maximum, and a maximum of too many pages.
pub proof fn refused_allocation(initial: nat, maximum: Option<nat>)
    ensures
        ({
            let defect = crate::memory::alloc_defect(initial, maximum);
            let coerced = initial <= 0xffff_ffff && match maximum {
                Some(most) => most <= 0xffff_ffff,
                None => true,
            };
            &&& initial > 0xffff_ffff ==> defect == Some(
                "initial ("@ + crate::text::decimal(initial) + ") can't be coerced to u32"@,
            )
            &&& maximum matches Some(most) ==> initial <= 0xffff_ffff && most > 0xffff_ffff
                ==> defect == Some(
                "maximum ("@ + crate::text::decimal(most) + ") can't be coerced to u32"@,
            )
            &&& coerced ==> defect == crate::validation::limits_defect(initial, maximum)
        }),
        ({
            let defect = crate::validation::limits_defect(initial, maximum);
            &&& initial > 65536 ==> defect == Some(
                "initial memory size must be at most "@ + crate::text::decimal(65536)
                    + " pages"@,
            )
            &&& maximum matches Some(most) ==> {
                &&& most < initial <= 65536 ==> defect == Some(
                    "maximum limit "@ + crate::text::decimal(most) + " is less than minimum "@
                        + crate::text::decimal(initial),
                )
                &&& initial <= 65536 < most ==> defect == Some(
                    "maximum memory size must be at most "@ + crate::text::decimal(65536)
                        + " pages"@,
                )
            }
        }),
{
}

/// Bytes can be the storage of a memory if and only if they start at a multiple of 65536, are a
/// multiple of 65536 many, and no more than 65536 pages. A refusal names the first of these that
/// fails.
pub proof fn refused_storage(address: nat, size: nat)
    ensures
        ({
            let defect = crate::memory::storage_defect(address, size);
            &&& defect is None <==> {
                &&& address % 65536 == 0
                &&& size % 65536 == 0
                &&& size <= 65536 * 65536
            }
            &&& address % 65536 != 0 ==> defect == Some(
                "Buffer address must be aligned to page size"@,
            )
            &&& address % 65536 == 0 && size % 65536 != 0 ==> defect == Some(
                "Size "@ + crate::text::decimal(size) + " must be multiple of page size"@,
            )
            &&& address % 65536 == 0 && size % 65536 == 0 && size > 65536 * 65536 ==> defect
                == Some(
                "Memory size must be at most "@ + crate::text::decimal(65536) + " pages"@,
            )
        }),
{
}

/// A memory can grow by some pages if and only if it then has at most as many as its maximum, or
/// 65536 if it has none. It can always grow by none. This is so for every maximum of at most 65536
/// pages; above that, no growth by more than 65536 pages is possible.
pub proof fn growth_within_maximum(present: nat, maximum: Option<nat>, additional: nat)
    ensures
        ({
            let defect = crate::state::growth_defect(
                present,
                crate::state::limit_of(maximum),
                additional,
            );
            let most = match maximum {
                Some(most) => most,
                None => 65536,
            };
            &&& defect is None <==> additional == 0 || (additional <= 65536 && present + additional
                <= most)
            &&& most <= 65536 && additional > 0 ==> (defect is None <==> present + additional
                <= most)
            &&& additional > 65536 ==> defect == Some(
                "Trying to grow memory by more than 65536 pages"@,
            )
            &&& 0 < additional <= 65536 && present + additional > most ==> defect == Some(
                "Trying to grow memory by "@ + crate::text::decimal(additional)
                    + " pages when already have "@ + crate::text::decimal(present),
            )
        }),
{
}

/// What limits the growth of a memory is its own maximum and its own size, and nothing else.
pub proof fn memory_grows_to_maximum(memory: MemoryState, additional: nat)
    ensures
        memory.growth_defect(additional) is None <==> {
            ||| additional == 0
            ||| additional <= 65536 && memory.size / 65536 + additional <= match memory.maximum {
                Some(most) => most,
                None => 65536,
            }
        },
        memory.growth_defect(additional) == crate::state::growth_defect(
            memory.size / 65536,
            crate::state::limit_of(memory.maximum),
            additional,
        ),
{
}

/// A region can be accessed if and only if it ends within the size of the memory. A refusal names
/// the region and the bytes that accesses have reached, unless the region has no end that could be
/// an address.
pub proof fn refused_access(memory: MemoryState, offset: nat, size: nat)
    requires
        memory.size <= usize::MAX,
    ensures
        ({
            let defect = memory.access_defect(offset, size);
            &&& defect is None <==> offset + size <= memory.size
            &&& offset + size > usize::MAX ==> defect == Some(
                "trying to access memory block of size "@ + crate::text::decimal(size)
                    + " from offset "@ + crate::text::decimal(offset),
            )
            &&& memory.size < offset + size <= usize::MAX ==> defect == Some(
                "trying to access region ["@ + crate::text::decimal(offset) + ".."@
                    + crate::text::decimal(offset + size) + "] in memory [0.."@
                    + crate::text::decimal(memory.reached) + "]"@,
            )
        }),
{
}

/// Two regions can be accessed together if and only if both end within the size of the memory. A
/// refusal names the first region if it has no end that could be an address, or else the second if
/// it has none. Otherwise it names the first region if that ends beyond the bytes that accesses
/// have reached, and else the second.
pub proof fn refused_pair(
    memory: MemoryState,
    offset1: nat,
    size1: nat,
    offset2: nat,
    size2: nat,
)
    requires
        memory.size <= usize::MAX,
    ensures
        ({
            let defect = memory.pair_defect(offset1, size1, offset2, size2);
            let end1 = offset1 + size1;
            let end2 = offset2 + size2;
            let beyond = end1 <= usize::MAX && end2 <= usize::MAX && (end1 > memory.size || end2
                > memory.size);
            &&& defect is None <==> end1 <= memory.size && end2 <= memory.size
            &&& end1 > usize::MAX ==> defect == Some(
                "trying to access memory block of size "@ + crate::text::decimal(size1)
                    + " from offset "@ + crate::text::decimal(offset1),
            )
            &&& end1 <= usize::MAX && end2 > usize::MAX ==> defect == Some(
                "trying to access memory block of size "@ + crate::text::decimal(size2)
                    + " from offset "@ + crate::text::decimal(offset2),
            )
            &&& beyond && end1 > memory.reached ==> defect == Some(
                "trying to access region ["@ + crate::text::decimal(offset1) + ".."@
                    + crate::text::decimal(end1) + "] in memory [0.."@ + crate::text::decimal(
                    memory.reached,
                ) + "]"@,
            )
            &&& beyond && end1 <= memory.reached ==> defect == Some(
                "trying to access region ["@ + crate::text::decimal(offset2) + ".."@
                    + crate::text::decimal(end2) + "] in memory [0.."@ + crate::text::decimal(
                    memory.reached,
                ) + "]"@,
            )
        }),
{
}

/// A copy is refused as an access to its source and its destination is, the source first. One that
/// must not overlap, and does, is refused with a text of its own.
pub proof fn refused_copy(memory: MemoryState, src: nat, dst: nat, len: nat)
    ensures
        memory.copy_defect(src, dst, len) == memory.pair_defect(src, len, dst, len),
        crate::error::overlapping_regions()
            == "non-overlapping copy is used for overlapping regions"@,
{
}

/// Two regions overlap if and only if neither is empty and each starts before the other ends.
pub proof fn overlap_of_regions(offset1: int, size1: int, offset2: int, size2: int)
    ensures
        crate::region::overlapping(offset1, size1, offset2, size2) <==> {
            &&& size1 > 0
            &&& size2 > 0
            &&& offset1 < offset2 + size2
            &&& offset2 < offset1 + size1
        },
{
    let later = if offset1 < offset2 {
        offset2
    } else {
        offset1
    };
    if size1 > 0 && size2 > 0 && offset1 < offset2 + size2 && offset2 < offset1 + size1 {
        assert(crate::region::in_region(later, offset1, size1) && crate::region::in_region(
            later,
            offset2,
            size2,
        ));
    }
}

} // verus!
