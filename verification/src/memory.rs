//! Linear memories.
use crate::allocator::Allocator;
use crate::allocator::Buffer;
use crate::bytes::fill;
use crate::bytes::move_within;
use crate::bytes::overwrite;
use crate::bytes::read_padded;
use crate::error::Error;
use crate::region::CheckedRegion;
use crate::state::MemoryState;
use crate::units::Bytes;
use crate::units::Pages;
use crate::units::LINEAR_MEMORY_PAGE_SIZE;
use crate::validation::validate_memory;
use crate::validation::LINEAR_MEMORY_MAX_PAGES;
use crate::value::LittleEndianConvert;
use core::mem::size_of;
use vstd::prelude::*;

verus! {

/// The sizes, in pages, between which a memory moves.
#[derive(Clone, Copy, Debug, PartialEq, Eq, Structural)]
pub struct ResizableLimits {
    /// The size that the memory starts with.
    pub initial: u32,
    /// The size that the memory can grow to, if it is limited.
    pub maximum: Option<u32>,
}

/// The number of pages in an optional amount.
pub open spec fn page_count(pages: Option<Pages>) -> Option<nat> {
    match pages {
        Some(pages) => Some(pages.0 as nat),
        None => None,
    }
}

/// Why a memory cannot be allocated with `initial` and `maximum` pages, if it cannot.
pub open spec fn alloc_defect(initial: nat, maximum: Option<nat>) -> Option<Seq<char>> {
    if initial > u32::MAX {
        Some(crate::error::initial_not_u32(initial))
    } else if maximum matches Some(most) && most > u32::MAX {
        Some(crate::error::maximum_not_u32(maximum->0))
    } else {
        crate::validation::limits_defect(initial, maximum)
    }
}

/// Why the `size` bytes at `address` cannot be the storage of a memory, if they cannot.
pub open spec fn storage_defect(address: nat, size: nat) -> Option<Seq<char>> {
    if address % 65536 != 0 {
        Some(crate::error::unaligned_buffer())
    } else if size % 65536 != 0 {
        Some(crate::error::uneven_size(size))
    } else if size / 65536 > LINEAR_MEMORY_MAX_PAGES {
        Some(crate::error::size_too_large(LINEAR_MEMORY_MAX_PAGES as nat))
    } else {
        None
    }
}

/// Runtime representation of a linear memory (or `memory` for short).
///
/// A memory is a contiguous, mutable array of raw bytes. Wasm code can load and store values
/// from/to a linear memory at any byte address.
/// A trap occurs if an access is not within the bounds of the current memory size.
///
/// A memory is created with an initial size but can be grown dynamically.
/// The growth can be limited by specifying maximum size.
/// The size of a memory is always a integer multiple of a page size - 64KiB.
///
/// There is no way to shrink a memory.
pub struct MemoryInstance {
    /// Memory limits.
    limits: ResizableLimits,
    /// Linear memory buffer with lazy allocation.
    buffer: Buffer,
    /// The size at creation.
    initial: Pages,
    /// The size in bytes.
    current_size: usize,
    /// The size that the memory can grow to.
    maximum: Option<Pages>,
    /// The lowest address written to.
    lowest_used: u32,
    /// The number of bytes that accesses have reached.
    buffer_size: usize,
    /// One more than the highest address written to.
    used_size: usize,
}

impl View for MemoryInstance {
    type V = MemoryState;

    closed spec fn view(&self) -> MemoryState {
        MemoryState {
            initial: self.initial.0 as nat,
            maximum: page_count(self.maximum),
            size: self.current_size as nat,
            stored: self.buffer.bytes(),
            reached: self.buffer_size as nat,
            used: self.used_size as nat,
            lowest_used: self.lowest_used as nat,
            growable: self.buffer.growable(),
        }
    }
}

impl MemoryInstance {
    /// The fields fit together.
    pub closed spec fn wf(&self) -> bool {
        &&& self@.valid()
        &&& self.limits.initial == self.initial.0
        &&& crate::validation::limit_count(self.limits.maximum) == page_count(self.maximum)
    }

    /// What the memory is stored in.
    pub closed spec fn storage(&self) -> Buffer {
        self.buffer
    }

    /// The state of a memory whose fields fit together is valid.
    pub proof fn lemma_wf_is_valid(&self)
        requires
            self.wf(),
        ensures
            self@.valid(),
    {
    }

    /// Given storage that is no longer written to is left with what the memory holds.
    pub proof fn lemma_given_storage_resolves(&self)
        requires
            self.wf(),
            self.storage() is Fixed,
            has_resolved(*self),
        ensures
            final(self.storage()->Fixed_0)@ == self@.contents(),
    {
        assert(has_resolved(self.buffer));
        assert(has_resolved(self.buffer->Fixed_0));
        assert(self@.contents() =~= self.buffer.bytes());
    }

    /// Allocates a memory instance.
    ///
    /// The memory is allocated with the initial number of pages specified by `initial`.
    /// Minimal possible value for `initial` is 0 and maximum possible is `65536`.
    /// (Since maximum addressible memory is 2<sup>32</sup> = 4GiB = 65536 * 64KiB).
    ///
    /// It is possible to limit the maximum number of pages this memory instance can have by
    /// specifying `maximum`. If not specified, this memory instance is able to allocate up to 4GiB.
    ///
    /// Allocated memory is always zeroed.
    ///
    /// The size in bytes of a memory of `initial` pages must be a `usize`.
    ///
    /// # Errors
    ///
    /// Returns `Err` if:
    ///
    /// - `initial` is greater than `maximum`
    /// - either `initial` or `maximum` is greater than `65536`.
    pub fn allocate(initial: Pages, maximum: Option<Pages>) -> (result: Result<MemoryInstance, Error>)
        requires
            crate::validation::limits_valid(initial.0 as nat, page_count(maximum))
                ==> crate::units::bytes_in(initial.0 as int) <= usize::MAX,
        ensures
            result is Ok <==> crate::validation::limits_valid(
                initial.0 as nat,
                page_count(maximum),
            ),
            result matches Ok(memory) ==> {
                &&& memory.wf()
                &&& memory@ == MemoryState::zeroed(initial.0 as nat, page_count(maximum))
            },
            result matches Err(error) ==> alloc_defect(initial.0 as nat, page_count(maximum))
                == Some(error.message()),
    {
        if initial.0 > u32::MAX as usize {
            return Err(Error::initial_not_u32(initial.0));
        }
        let maximum_u32: Option<u32> = match maximum {
            Some(most) => {
                if most.0 > u32::MAX as usize {
                    return Err(Error::maximum_not_u32(most.0));
                }
                Some(most.0 as u32)
            },
            None => None,
        };
        match validate_memory(initial.0 as u32, maximum_u32) {
            Ok(_) => {},
            Err(text) => {
                return Err(Error::Memory(text));
            },
        }
        let storage: Vec<u8> = Vec::with_capacity(4096);
        Ok(MemoryInstance::new(initial, maximum, Buffer::Growable(storage)))
    }

    /// Checks that the `size` bytes at `address` can be the storage of a memory, and counts their
    /// pages.
    ///
    /// # Errors
    ///
    /// Returns `Err` if:
    ///
    /// - `address` is not aligned to page size.
    /// - `size` is not a multiple of page size.
    /// - `size` is more than 65536 pages.
    pub fn check_storage(address: usize, size: usize) -> (result: Result<Pages, Error>)
        ensures
            result is Ok <==> storage_defect(address as nat, size as nat) is None,
            result matches Ok(pages) ==> crate::units::bytes_in(pages.0 as int) == size,
            result matches Err(error) ==> storage_defect(address as nat, size as nat) == Some(
                error.message(),
            ),
    {
        if address % LINEAR_MEMORY_PAGE_SIZE != 0 {
            return Err(Error::unaligned_buffer());
        }
        if size % LINEAR_MEMORY_PAGE_SIZE != 0 {
            return Err(Error::uneven_size(size));
        }
        let pages: Pages = Bytes(size).round_up_to();
        if pages.0 > LINEAR_MEMORY_MAX_PAGES as usize {
            return Err(Error::size_too_large(LINEAR_MEMORY_MAX_PAGES as usize));
        }
        Ok(pages)
    }

    /// Creates a memory instance in the bytes `buffer`, which stand at `address`. The address must
    /// be aligned to page size. The size must be a multiple of page size.
    ///
    /// The memory lives in `buffer`: it holds what `buffer` holds, what is written to it is written
    /// to `buffer`, and it cannot grow.
    ///
    /// # Errors
    ///
    /// Returns `Err` if:
    ///
    /// - `address` is not aligned to page size.
    /// - the size of `buffer` is not a multiple of page size.
    /// - the size of `buffer` is more than 65536 pages.
    pub fn with_memory(address: usize, buffer: &'static mut [u8]) -> (result: Result<
        MemoryInstance,
        Error,
    >)
        ensures
            result is Ok <==> storage_defect(address as nat, old(buffer)@.len()) is None,
            result matches Ok(memory) ==> {
                &&& memory.wf()
                &&& memory@ == MemoryState::over(old(buffer)@)
                &&& memory.storage() matches Buffer::Fixed(kept)
                &&& final(kept)@ == final(buffer)@
            },
            result matches Err(error) ==> storage_defect(address as nat, old(buffer)@.len())
                == Some(error.message()),
    {
        match MemoryInstance::check_storage(address, buffer.len()) {
            Ok(pages) => Ok(MemoryInstance::new(pages, Some(pages), Buffer::Fixed(buffer))),
            Err(error) => Err(error),
        }
    }

    /// Creates a new linear memory instance.
    ///
    /// Growable storage must be empty, as the memory is to be zero. Storage of a fixed length must
    /// be as long as the memory is, and the memory must not be allowed to grow. Neither limit may
    /// be above 65536 pages.
    pub fn new(initial: Pages, maximum: Option<Pages>, allocator: Buffer) -> (memory: Self)
        requires
            initial.0 <= LINEAR_MEMORY_MAX_PAGES,
            maximum matches Some(most) ==> most.0 <= LINEAR_MEMORY_MAX_PAGES,
            crate::units::bytes_in(initial.0 as int) <= usize::MAX,
            allocator.growable() ==> allocator.bytes().len() == 0,
            !allocator.growable() ==> {
                &&& allocator.bytes().len() == crate::units::bytes_in(initial.0 as int)
                &&& maximum == Some(initial)
            },
        ensures
            memory.wf(),
            allocator.growable() ==> memory@ == MemoryState::zeroed(
                initial.0 as nat,
                page_count(maximum),
            ),
            !allocator.growable() ==> memory@ == MemoryState::over(allocator.bytes()),
            memory.storage() == allocator,
    {
        let limits = ResizableLimits {
            initial: initial.0 as u32,
            maximum: match maximum {
                Some(most) => Some(most.0 as u32),
                None => None,
            },
        };
        let initial_size: Bytes = initial.into_bytes();
        let memory = MemoryInstance {
            limits,
            buffer: allocator,
            initial,
            current_size: initial_size.0,
            maximum,
            lowest_used: u32::MAX,
            buffer_size: 0,
            used_size: 0,
        };
        proof {
            if memory.buffer.growable() {
                assert(memory@ =~= MemoryState::zeroed(initial.0 as nat, page_count(maximum)));
            } else {
                assert(memory@ =~= MemoryState::over(memory.buffer.bytes()));
            }
        }
        memory
    }

    /// Returns linear memory limits.
    pub fn limits(&self) -> (limits: &ResizableLimits)
        requires
            self.wf(),
        ensures
            limits.initial == self@.initial,
            crate::validation::limit_count(limits.maximum) == self@.maximum,
    {
        &self.limits
    }

    /// Returns number of pages this `MemoryInstance` was created with.
    pub fn initial(&self) -> (pages: Pages)
        requires
            self.wf(),
        ensures
            pages.0 == self@.initial,
    {
        self.initial
    }

    /// Returns maximum amount of pages this `MemoryInstance` can grow to.
    ///
    /// Returns `None` if there is no limit set.
    /// Maximum memory size cannot exceed `65536` pages or 4GiB.
    pub fn maximum(&self) -> (pages: Option<Pages>)
        requires
            self.wf(),
        ensures
            page_count(pages) == self@.maximum,
    {
        self.maximum
    }

    /// Returns lowest offset ever written or `u32::MAX` if none.
    pub fn lowest_used(&self) -> (offset: u32)
        requires
            self.wf(),
        ensures
            offset == self@.lowest_used,
    {
        self.lowest_used
    }

    /// Resets tracked lowest offset.
    pub fn reset_lowest_used(&mut self, addr: u32)
        requires
            old(self).wf(),
        ensures
            final(self).wf(),
            final(self)@ == (MemoryState { lowest_used: addr as nat, ..old(self)@ }),
            old(self).storage() matches Buffer::Fixed(given) ==> {
                &&& final(self).storage() matches Buffer::Fixed(kept)
                &&& final(kept)@ == final(given)@
            },
    {
        self.lowest_used = addr;
    }

    /// Returns current linear memory size.
    ///
    /// Maximum memory size cannot exceed `65536` pages or 4GiB.
    pub fn current_size(&self) -> (pages: Pages)
        requires
            self.wf(),
        ensures
            pages.0 == self@.pages(),
    {
        Bytes(self.current_size).round_up_to()
    }

    /// Returns current used memory size in bytes.
    /// This is one more than the highest memory address that had been written to.
    pub fn used_size(&self) -> (bytes: Bytes)
        requires
            self.wf(),
        ensures
            bytes.0 == self@.used,
    {
        Bytes(self.used_size)
    }

    /// Computes the size to which a memory of `present` pages grows by `additional` pages, if it is
    /// limited to `maximum` pages.
    ///
    /// # Errors
    ///
    /// Returns `Err` if that is more memory than permitted by the limit.
    pub fn growth(present: Pages, maximum: Option<Pages>, additional: Pages) -> (result: Result<
        Pages,
        Error,
    >)
        requires
            present.0 <= LINEAR_MEMORY_MAX_PAGES,
        ensures
            result is Ok <==> crate::state::growth_defect(
                present.0 as nat,
                crate::state::limit_of(page_count(maximum)),
                additional.0 as nat,
            ) is None,
            result matches Ok(pages) ==> pages.0 == present.0 + additional.0,
            result matches Err(error) ==> crate::state::growth_defect(
                present.0 as nat,
                crate::state::limit_of(page_count(maximum)),
                additional.0 as nat,
            ) == Some(error.message()),
    {
        if additional.0 == 0 {
            return Ok(present);
        }
        if additional.0 > 65536 {
            return Err(Error::growth_too_large());
        }
        let new_size: Pages = Pages(present.0 + additional.0);
        let maximum: Pages = match maximum {
            Some(maximum) => maximum,
            None => Pages(LINEAR_MEMORY_MAX_PAGES as usize),
        };
        if new_size.0 > maximum.0 {
            return Err(Error::growth_over_limit(additional.0, present.0));
        }
        Ok(new_size)
    }

    /// Increases the size of the linear memory by given number of pages.
    /// Returns previous memory size if succeeds.
    ///
    /// The size in bytes of the grown memory must be a `usize`.
    ///
    /// # Errors
    ///
    /// Returns `Err` if attempted to allocate more memory than permited by the limit.
    pub fn grow(&mut self, additional: Pages) -> (result: Result<Pages, Error>)
        requires
            old(self).wf(),
            old(self)@.growth_defect(additional.0 as nat) is None ==> crate::units::bytes_in(
                old(self)@.pages() + additional.0,
            ) <= usize::MAX,
        ensures
            final(self).wf(),
            result is Ok <==> old(self)@.growth_defect(additional.0 as nat) is None,
            result matches Ok(previous) ==> {
                &&& previous.0 == old(self)@.pages()
                &&& final(self)@ == old(self)@.grown(additional.0 as nat)
            },
            result matches Err(error) ==> {
                &&& old(self)@.growth_defect(additional.0 as nat) == Some(error.message())
                &&& final(self)@ == old(self)@
            },
            old(self).storage() matches Buffer::Fixed(given) ==> {
                &&& final(self).storage() matches Buffer::Fixed(kept)
                &&& final(kept)@ == final(given)@
            },
    {
        let size_before_grow: Pages = self.current_size();
        match MemoryInstance::growth(size_before_grow, self.maximum, additional) {
            Ok(new_size) => {
                let new_buffer_length: Bytes = new_size.into_bytes();
                self.current_size = new_buffer_length.0;
                Ok(size_before_grow)
            },
            Err(error) => Err(error),
        }
    }

    /// Provides direct access to the underlying memory buffer.
    ///
    /// Note that the buffer holds only the bytes that are in storage. Proceed with caution.
    pub fn with_direct_access<R, F: FnOnce(&[u8]) -> R>(&self, f: F) -> (result: R)
        requires
            self.wf(),
            forall|buffer: &[u8]|
                buffer@ == self@.stored ==> #[trigger] f.requires((buffer,)),
        ensures
            exists|buffer: &[u8]|
                buffer@ == self@.stored && #[trigger] f.ensures((buffer,), result),
    {
        f(self.buffer.as_slice())
    }

    /// Provides direct mutable access to the underlying memory buffer.
    ///
    /// Note that the buffer holds only the bytes that are in storage. The closure may however
    /// resize it. What the closure does is not tracked: the next access that ends beyond all
    /// others cuts the buffer there if it is longer, and bytes beyond its end are zero. The
    /// closure must leave the buffer growable if it was, and otherwise leave the slice that it
    /// was; the operations of [`Allocator`] do. Proceed with caution.
    pub fn with_direct_access_mut<R, F: FnOnce(&mut Buffer) -> R>(&mut self, f: F) -> (result: R)
        requires
            old(self).wf(),
            forall|buffer: &mut Buffer|
                (*buffer).bytes() == old(self)@.stored && (*buffer).growable()
                    == old(self)@.growable ==> #[trigger] f.requires((buffer,)),
            forall|buffer: &mut Buffer, result: R|
                (*buffer).bytes() == old(self)@.stored && (*buffer).growable()
                    == old(self)@.growable && #[trigger] f.ensures((buffer,), result) ==> {
                    &&& (*final(buffer)).growable() == (*buffer).growable()
                    &&& *buffer matches Buffer::Fixed(given) ==> {
                        &&& *final(buffer) matches Buffer::Fixed(kept)
                        &&& kept@.len() == given@.len()
                        &&& final(kept)@ == final(given)@
                    }
                },
        ensures
            final(self).wf(),
            exists|buffer: &mut Buffer|
                {
                    &&& (*buffer).bytes() == old(self)@.stored
                    &&& (*buffer).growable() == old(self)@.growable
                    &&& #[trigger] f.ensures((buffer,), result)
                    &&& final(self)@ == old(self)@.restored((*final(buffer)).bytes())
                },
            old(self).storage() matches Buffer::Fixed(given) ==> {
                &&& final(self).storage() matches Buffer::Fixed(kept)
                &&& final(kept)@ == final(given)@
            },
    {
        f(&mut self.buffer)
    }

    /// Checks that the memory has the `size` bytes from `offset` on, and takes storage for them.
    fn checked_region(&mut self, offset: usize, size: usize) -> (result: Result<
        CheckedRegion,
        Error,
    >)
        requires
            old(self).wf(),
        ensures
            final(self).wf(),
            result is Ok <==> old(self)@.access_defect(offset as nat, size as nat) is None,
            result matches Ok(region) ==> {
                &&& region.offset == offset
                &&& region.size == size
                &&& final(self)@ == old(self)@.touched((offset + size) as nat)
                &&& region.end() <= final(self)@.reached
            },
            result matches Err(error) ==> {
                &&& old(self)@.access_defect(offset as nat, size as nat) == Some(error.message())
                &&& final(self)@ == old(self)@
            },
            old(self).storage() matches Buffer::Fixed(given) ==> {
                &&& final(self).storage() matches Buffer::Fixed(kept)
                &&& final(kept)@ == final(given)@
            },
    {
        let end: usize = match offset.checked_add(size) {
            Some(end) => end,
            None => {
                return Err(Error::unaddressable_region(offset, size));
            },
        };
        if end <= self.current_size && self.buffer_size < end {
            self.buffer.resize(end, 0);
            self.buffer_size = self.buffer.as_slice().len();
        }
        if end > self.buffer_size {
            return Err(Error::region_out_of_bounds(offset, end, self.buffer_size));
        }
        Ok(CheckedRegion { offset, size })
    }

    /// Checks that the memory has the `size1` bytes from `offset1` on and the `size2` bytes from
    /// `offset2` on, and takes storage for both.
    fn checked_region_pair(
        &mut self,
        offset1: usize,
        size1: usize,
        offset2: usize,
        size2: usize,
    ) -> (result: Result<(CheckedRegion, CheckedRegion), Error>)
        requires
            old(self).wf(),
        ensures
            final(self).wf(),
            result is Ok <==> old(self)@.pair_defect(
                offset1 as nat,
                size1 as nat,
                offset2 as nat,
                size2 as nat,
            ) is None,
            result matches Ok((region1, region2)) ==> {
                &&& region1.offset == offset1
                &&& region1.size == size1
                &&& region2.offset == offset2
                &&& region2.size == size2
                &&& final(self)@ == old(self)@.touched(
                    crate::state::larger((offset1 + size1) as nat, (offset2 + size2) as nat),
                )
                &&& region1.end() <= final(self)@.reached
                &&& region2.end() <= final(self)@.reached
            },
            result matches Err(error) ==> {
                &&& old(self)@.pair_defect(
                    offset1 as nat,
                    size1 as nat,
                    offset2 as nat,
                    size2 as nat,
                ) == Some(error.message())
                &&& final(self)@ == old(self)@
            },
            old(self).storage() matches Buffer::Fixed(given) ==> {
                &&& final(self).storage() matches Buffer::Fixed(kept)
                &&& final(kept)@ == final(given)@
            },
    {
        let end1: usize = match offset1.checked_add(size1) {
            Some(end) => end,
            None => {
                return Err(Error::unaddressable_region(offset1, size1));
            },
        };
        let end2: usize = match offset2.checked_add(size2) {
            Some(end) => end,
            None => {
                return Err(Error::unaddressable_region(offset2, size2));
            },
        };
        let max: usize = if end1 < end2 {
            end2
        } else {
            end1
        };
        if max <= self.current_size && self.buffer_size < max {
            self.buffer.resize(max, 0);
            self.buffer_size = self.buffer.as_slice().len();
        }
        if end1 > self.buffer_size {
            return Err(Error::region_out_of_bounds(offset1, end1, self.buffer_size));
        }
        if end2 > self.buffer_size {
            return Err(Error::region_out_of_bounds(offset2, end2, self.buffer_size));
        }
        Ok(
            (
                CheckedRegion { offset: offset1, size: size1 },
                CheckedRegion { offset: offset2, size: size2 },
            ),
        )
    }

    /// Copies the bytes of `region` to `target`.
    fn read(&self, region: CheckedRegion, target: &mut [u8])
        requires
            self.wf(),
            region.end() <= self@.size,
            old(target)@.len() == region.size,
        ensures
            final(target)@ == self@.region(region.offset as nat, region.size as nat),
    {
        read_padded(self.buffer.as_slice(), region.offset, target);
        assert(target@ =~= self@.region(region.offset as nat, region.size as nat));
    }

    /// Copies the bytes of `region` to a vector.
    fn read_to_vec(&self, region: CheckedRegion) -> (data: Vec<u8>)
        requires
            self.wf(),
            region.end() <= self@.size,
        ensures
            data@ == self@.region(region.offset as nat, region.size as nat),
    {
        let mut data: Vec<u8> = Vec::new();
        Vec::resize(&mut data, region.size, 0);
        self.read(region, Vec::as_mut_slice(&mut data));
        data
    }

    /// Readies the storage for `region`, which has been reached and is about to be written, and
    /// tracks its addresses.
    fn prepare_write(&mut self, region: CheckedRegion)
        requires
            old(self).wf(),
            region.end() <= old(self)@.reached,
            region.size > 0,
        ensures
            final(self).wf(),
            final(self)@ == (MemoryState {
                stored: crate::bytes::resized(
                    old(self)@.stored,
                    crate::state::larger(old(self)@.stored.len(), region.end() as nat),
                    0,
                ),
                used: crate::state::larger(old(self)@.used, region.end() as nat),
                lowest_used: crate::state::smaller(
                    old(self)@.lowest_used,
                    region.offset as nat,
                ),
                ..old(self)@
            }),
            old(self).storage() matches Buffer::Fixed(given) ==> {
                &&& final(self).storage() matches Buffer::Fixed(kept)
                &&& final(kept)@ == final(given)@
            },
    {
        let end: usize = region.offset + region.size;
        if self.used_size < end {
            self.used_size = end;
        }
        if region.offset < self.lowest_used as usize {
            self.lowest_used = region.offset as u32;
        }
        if self.buffer.as_slice().len() < end {
            self.buffer.resize(end, 0);
        }
        assert(self@.stored =~= crate::bytes::resized(
            old(self)@.stored,
            crate::state::larger(old(self)@.stored.len(), region.end() as nat),
            0,
        ));
    }

    /// Gets a value from memory at given offset.
    ///
    /// # Errors
    ///
    /// Returns `Err` if the specified region is out of bounds.
    pub fn get_value<T: LittleEndianConvert>(&mut self, offset: u32) -> (result: Result<T, Error>)
        requires
            old(self).wf(),
        ensures
            final(self).wf(),
            result is Ok <==> old(self)@.access_defect(
                offset as nat,
                vstd::layout::size_of::<T>(),
            ) is None,
            result matches Ok(value) ==> {
                &&& value.le_bytes() == old(self)@.region(
                    offset as nat,
                    vstd::layout::size_of::<T>(),
                )
                &&& final(self)@ == old(self)@.touched(
                    offset as nat + vstd::layout::size_of::<T>(),
                )
            },
            result matches Err(error) ==> {
                &&& old(self)@.access_defect(offset as nat, vstd::layout::size_of::<T>()) == Some(
                    error.message(),
                )
                &&& final(self)@ == old(self)@
            },
            old(self).storage() matches Buffer::Fixed(given) ==> {
                &&& final(self).storage() matches Buffer::Fixed(kept)
                &&& final(kept)@ == final(given)@
            },
    {
        let region = match self.checked_region(offset as usize, size_of::<T>()) {
            Ok(region) => region,
            Err(error) => {
                return Err(error);
            },
        };
        let encoded = self.read_to_vec(region);
        proof {
            old(self)@.lemma_touch_keeps_region(offset as nat, vstd::layout::size_of::<T>());
        }
        match T::from_little_endian(Vec::as_slice(&encoded)) {
            Ok(value) => {
                assert(encoded@.subrange(0, encoded@.len() as int) =~= encoded@);
                Ok(value)
            },
            Err(_) => vstd::pervasive::unreached(),
        }
    }

    /// Copies data from memory at given offset.
    ///
    /// This allocates a vector. If a mutable slice is at hand, use [`MemoryInstance::get_into`].
    ///
    /// # Errors
    ///
    /// Returns `Err` if the specified region is out of bounds.
    pub fn get(&mut self, offset: u32, size: usize) -> (result: Result<Vec<u8>, Error>)
        requires
            old(self).wf(),
        ensures
            final(self).wf(),
            result is Ok <==> old(self)@.access_defect(offset as nat, size as nat) is None,
            result matches Ok(data) ==> {
                &&& data@ == old(self)@.region(offset as nat, size as nat)
                &&& final(self)@ == old(self)@.touched((offset + size) as nat)
            },
            result matches Err(error) ==> {
                &&& old(self)@.access_defect(offset as nat, size as nat) == Some(error.message())
                &&& final(self)@ == old(self)@
            },
            old(self).storage() matches Buffer::Fixed(given) ==> {
                &&& final(self).storage() matches Buffer::Fixed(kept)
                &&& final(kept)@ == final(given)@
            },
    {
        match self.checked_region(offset as usize, size) {
            Ok(region) => {
                proof {
                    old(self)@.lemma_touch_keeps_region(offset as nat, size as nat);
                }
                Ok(self.read_to_vec(region))
            },
            Err(error) => Err(error),
        }
    }

    /// Copies the `size` bytes from `offset` on, if that takes no storage. This is what
    /// [`MemoryInstance::get`] does on a region that accesses have reached, or that the memory
    /// does not have.
    ///
    /// Returns `None` if the memory has the region, but accesses have not reached it.
    ///
    /// # Errors
    ///
    /// Returns `Err` if the specified region is out of bounds.
    pub fn peek(&self, offset: usize, size: usize) -> (result: Option<Result<Vec<u8>, Error>>)
        requires
            self.wf(),
        ensures
            result is None <==> {
                &&& self@.access_defect(offset as nat, size as nat) is None
                &&& offset + size > self@.reached
            },
            result matches Some(Ok(data)) ==> {
                &&& self@.access_defect(offset as nat, size as nat) is None
                &&& data@ == self@.region(offset as nat, size as nat)
            },
            result matches Some(Err(error)) ==> self@.access_defect(offset as nat, size as nat)
                == Some(error.message()),
    {
        let end: usize = match offset.checked_add(size) {
            Some(end) => end,
            None => {
                return Some(Err(Error::unaddressable_region(offset, size)));
            },
        };
        if end > self.current_size {
            return Some(Err(Error::region_out_of_bounds(offset, end, self.buffer_size)));
        }
        if end > self.buffer_size {
            return None;
        }
        Some(Ok(self.read_to_vec(CheckedRegion { offset, size })))
    }

    /// Copies data from given offset in the memory into `target` slice.
    ///
    /// # Errors
    ///
    /// Returns `Err` if the specified region is out of bounds.
    pub fn get_into(&mut self, offset: u32, target: &mut [u8]) -> (result: Result<(), Error>)
        requires
            old(self).wf(),
        ensures
            final(self).wf(),
            result is Ok <==> old(self)@.access_defect(offset as nat, old(target)@.len()) is None,
            result is Ok ==> {
                &&& final(target)@ == old(self)@.region(offset as nat, old(target)@.len())
                &&& final(self)@ == old(self)@.touched(offset as nat + old(target)@.len())
            },
            result matches Err(error) ==> {
                &&& old(self)@.access_defect(offset as nat, old(target)@.len()) == Some(
                    error.message(),
                )
                &&& final(target)@ == old(target)@
                &&& final(self)@ == old(self)@
            },
            old(self).storage() matches Buffer::Fixed(given) ==> {
                &&& final(self).storage() matches Buffer::Fixed(kept)
                &&& final(kept)@ == final(given)@
            },
    {
        let region = match self.checked_region(offset as usize, target.len()) {
            Ok(region) => region,
            Err(error) => {
                return Err(error);
            },
        };
        proof {
            old(self)@.lemma_touch_keeps_region(offset as nat, old(target)@.len());
        }
        self.read(region, target);
        Ok(())
    }

    /// Copies data into the memory at given offset.
    ///
    /// # Errors
    ///
    /// Returns `Err` if the specified region is out of bounds.
    pub fn set(&mut self, offset: u32, value: &[u8]) -> (result: Result<(), Error>)
        requires
            old(self).wf(),
        ensures
            final(self).wf(),
            result is Ok <==> old(self)@.access_defect(offset as nat, value@.len()) is None,
            result is Ok ==> final(self)@ == old(self)@.written(offset as nat, value@),
            result matches Err(error) ==> {
                &&& old(self)@.access_defect(offset as nat, value@.len()) == Some(error.message())
                &&& final(self)@ == old(self)@
            },
            old(self).storage() matches Buffer::Fixed(given) ==> {
                &&& final(self).storage() matches Buffer::Fixed(kept)
                &&& final(kept)@ == final(given)@
            },
    {
        self.write_at(offset as usize, value)
    }

    /// Copies data into the memory at an offset of any width.
    ///
    /// # Errors
    ///
    /// Returns `Err` if the specified region is out of bounds.
    pub fn write_at(&mut self, offset: usize, value: &[u8]) -> (result: Result<(), Error>)
        requires
            old(self).wf(),
        ensures
            final(self).wf(),
            result is Ok <==> old(self)@.access_defect(offset as nat, value@.len()) is None,
            result is Ok ==> final(self)@ == old(self)@.written(offset as nat, value@),
            result matches Err(error) ==> {
                &&& old(self)@.access_defect(offset as nat, value@.len()) == Some(error.message())
                &&& final(self)@ == old(self)@
            },
            old(self).storage() matches Buffer::Fixed(given) ==> {
                &&& final(self).storage() matches Buffer::Fixed(kept)
                &&& final(kept)@ == final(given)@
            },
    {
        let region = match self.checked_region(offset, value.len()) {
            Ok(region) => region,
            Err(error) => {
                return Err(error);
            },
        };
        if region.size > 0 {
            self.prepare_write(region);
            overwrite(self.buffer.as_mut_slice(), region.offset, value);
        }
        Ok(())
    }

    /// Copies a value into the memory at given offset.
    ///
    /// # Errors
    ///
    /// Returns `Err` if the specified region is out of bounds.
    pub fn set_value<T: LittleEndianConvert>(&mut self, offset: u32, value: T) -> (result: Result<
        (),
        Error,
    >)
        requires
            old(self).wf(),
        ensures
            final(self).wf(),
            result is Ok <==> old(self)@.access_defect(
                offset as nat,
                vstd::layout::size_of::<T>(),
            ) is None,
            result is Ok ==> final(self)@ == old(self)@.written(offset as nat, value.le_bytes()),
            result matches Err(error) ==> {
                &&& old(self)@.access_defect(offset as nat, vstd::layout::size_of::<T>()) == Some(
                    error.message(),
                )
                &&& final(self)@ == old(self)@
            },
            old(self).storage() matches Buffer::Fixed(given) ==> {
                &&& final(self).storage() matches Buffer::Fixed(kept)
                &&& final(kept)@ == final(given)@
            },
    {
        let region = match self.checked_region(offset as usize, size_of::<T>()) {
            Ok(region) => region,
            Err(error) => {
                return Err(error);
            },
        };
        proof {
            value.lemma_le_bytes_len();
        }
        if region.size > 0 {
            self.prepare_write(region);
            let ghost before = *self;
            let (_head, rest) = self.buffer.as_mut_slice().split_at_mut(region.offset);
            let (target, _tail) = rest.split_at_mut(region.size);
            value.into_little_endian(target);
            assert(self.buffer.bytes() =~= crate::bytes::splice(
                before.buffer.bytes(),
                offset as int,
                value.le_bytes(),
            ));
        }
        Ok(())
    }

    /// Copies the bytes of one region to another of the same size, both of which have been reached.
    fn copy_region(&mut self, source: CheckedRegion, dest: CheckedRegion)
        requires
            old(self).wf(),
            source.end() <= old(self)@.reached,
            dest.end() <= old(self)@.reached,
            source.size == dest.size,
        ensures
            final(self).wf(),
            final(self)@ == old(self)@.patched(
                dest.offset as nat,
                old(self)@.region(source.offset as nat, source.size as nat),
            ),
            old(self).storage() matches Buffer::Fixed(given) ==> {
                &&& final(self).storage() matches Buffer::Fixed(kept)
                &&& final(kept)@ == final(given)@
            },
    {
        if dest.size == 0 {
            return ;
        }
        // Direct access may have left less storage than was reached: the bytes beyond are zero.
        let stored: usize = self.buffer.as_slice().len();
        let present: usize = if source.offset >= stored {
            0
        } else if source.size < stored - source.offset {
            source.size
        } else {
            stored - source.offset
        };
        self.prepare_write(dest);
        let ghost before = *self;
        let buffer = self.buffer.as_mut_slice();
        if present > 0 {
            move_within(buffer, source.offset, dest.offset, present);
        }
        fill(buffer, dest.offset + present, 0, dest.size - present);
        proof {
            crate::bytes::lemma_padded_move(
                old(self)@.stored,
                before@.stored.len(),
                old(self)@.size,
                source.offset as int,
                dest.offset as int,
                dest.size as nat,
                present as nat,
            );
        }
    }

    /// Copies contents of one memory region to another.
    ///
    /// Semantically equivalent to `memmove`.
    ///
    /// # Errors
    ///
    /// Returns `Err` if either of specified regions is out of bounds.
    pub fn copy(&mut self, src_offset: usize, dst_offset: usize, len: usize) -> (result: Result<
        (),
        Error,
    >)
        requires
            old(self).wf(),
        ensures
            final(self).wf(),
            result is Ok <==> old(self)@.copy_defect(
                src_offset as nat,
                dst_offset as nat,
                len as nat,
            ) is None,
            result is Ok ==> final(self)@ == old(self)@.copied(
                src_offset as nat,
                dst_offset as nat,
                len as nat,
            ),
            result matches Err(error) ==> {
                &&& old(self)@.copy_defect(src_offset as nat, dst_offset as nat, len as nat)
                    == Some(error.message())
                &&& final(self)@ == old(self)@
            },
            old(self).storage() matches Buffer::Fixed(given) ==> {
                &&& final(self).storage() matches Buffer::Fixed(kept)
                &&& final(kept)@ == final(given)@
            },
    {
        let (read_region, write_region) = match self.checked_region_pair(
            src_offset,
            len,
            dst_offset,
            len,
        ) {
            Ok(regions) => regions,
            Err(error) => {
                return Err(error);
            },
        };
        proof {
            old(self)@.lemma_pair_touch_keeps_region(
                src_offset as nat,
                dst_offset as nat,
                len as nat,
            );
        }
        self.copy_region(read_region, write_region);
        Ok(())
    }

    /// Copies contents of one memory region to another (non-overlapping version).
    ///
    /// Semantically equivalent to `memcpy`, but returns an error if source and destination
    /// overlap.
    ///
    /// # Errors
    ///
    /// Returns `Err` if:
    ///
    /// - either of specified regions is out of bounds,
    /// - these regions overlap.
    pub fn copy_nonoverlapping(
        &mut self,
        src_offset: usize,
        dst_offset: usize,
        len: usize,
    ) -> (result: Result<(), Error>)
        requires
            old(self).wf(),
        ensures
            final(self).wf(),
            result is Ok <==> {
                &&& old(self)@.copy_defect(
                    src_offset as nat,
                    dst_offset as nat,
                    len as nat,
                ) is None
                &&& !crate::region::overlapping(
                    src_offset as int,
                    len as int,
                    dst_offset as int,
                    len as int,
                )
            },
            result is Ok ==> final(self)@ == old(self)@.copied(
                src_offset as nat,
                dst_offset as nat,
                len as nat,
            ),
            result matches Err(error) ==> match old(self)@.copy_defect(
                src_offset as nat,
                dst_offset as nat,
                len as nat,
            ) {
                Some(text) => error.message() == text && final(self)@ == old(self)@,
                None => {
                    &&& error.message() == crate::error::overlapping_regions()
                    &&& final(self)@ == old(self)@.touched_pair(
                        src_offset as nat,
                        dst_offset as nat,
                        len as nat,
                    )
                },
            },
            old(self).storage() matches Buffer::Fixed(given) ==> {
                &&& final(self).storage() matches Buffer::Fixed(kept)
                &&& final(kept)@ == final(given)@
            },
    {
        let (read_region, write_region) = match self.checked_region_pair(
            src_offset,
            len,
            dst_offset,
            len,
        ) {
            Ok(regions) => regions,
            Err(error) => {
                return Err(error);
            },
        };
        if read_region.intersects(&write_region) {
            return Err(Error::overlapping_regions());
        }
        proof {
            old(self)@.lemma_pair_touch_keeps_region(
                src_offset as nat,
                dst_offset as nat,
                len as nat,
            );
        }
        self.copy_region(read_region, write_region);
        Ok(())
    }

    /// Copies memory between two (possibly distinct) memory instances.
    ///
    /// If the destination is the source itself, this is [`MemoryInstance::copy`].
    ///
    /// # Errors
    ///
    /// Returns `Err` if either of specified regions is out of bounds.
    pub fn transfer(
        src: &mut MemoryInstance,
        src_offset: usize,
        dst: Destination<'_>,
        dst_offset: usize,
        len: usize,
    ) -> (result: Result<(), Error>)
        requires
            old(src).wf(),
            dst matches Destination::OtherMemory(other) ==> other.wf(),
        ensures
            final(src).wf(),
            dst matches Destination::OtherMemory(other) ==> final(other).wf(),
            dst is SameMemory ==> {
                &&& result is Ok <==> old(src)@.copy_defect(
                    src_offset as nat,
                    dst_offset as nat,
                    len as nat,
                ) is None
                &&& result is Ok ==> final(src)@ == old(src)@.copied(
                    src_offset as nat,
                    dst_offset as nat,
                    len as nat,
                )
                &&& result matches Err(error) ==> {
                    &&& old(src)@.copy_defect(src_offset as nat, dst_offset as nat, len as nat)
                        == Some(error.message())
                    &&& final(src)@ == old(src)@
                }
            },
            dst matches Destination::OtherMemory(other) ==> {
                let src_defect = old(src)@.access_defect(src_offset as nat, len as nat);
                let dst_defect = other@.access_defect(dst_offset as nat, len as nat);
                &&& final(src)@ == if src_defect is None {
                    old(src)@.touched((src_offset + len) as nat)
                } else {
                    old(src)@
                }
                &&& result is Ok <==> src_defect is None && dst_defect is None
                &&& result is Ok ==> final(other)@ == other@.written(
                    dst_offset as nat,
                    old(src)@.region(src_offset as nat, len as nat),
                )
                &&& result matches Err(error) ==> {
                    &&& final(other)@ == other@
                    &&& Some(error.message()) == if src_defect is None {
                        dst_defect
                    } else {
                        src_defect
                    }
                }
            },
            old(src).storage() matches Buffer::Fixed(given) ==> {
                &&& final(src).storage() matches Buffer::Fixed(kept)
                &&& final(kept)@ == final(given)@
            },
            dst matches Destination::OtherMemory(other) ==> {
                other.storage() matches Buffer::Fixed(given) ==> {
                    &&& final(other).storage() matches Buffer::Fixed(kept)
                    &&& final(kept)@ == final(given)@
                }
            },
    {
        match dst {
            Destination::SameMemory => src.copy(src_offset, dst_offset, len),
            Destination::OtherMemory(other) => {
                let src_region = match src.checked_region(src_offset, len) {
                    Ok(region) => region,
                    Err(error) => {
                        return Err(error);
                    },
                };
                let moved = src.read_to_vec(src_region);
                proof {
                    old(src)@.lemma_touch_keeps_region(src_offset as nat, len as nat);
                }
                other.write_at(dst_offset, Vec::as_slice(&moved))
            },
        }
    }

    /// Fills the memory region with the specified value.
    ///
    /// Semantically equivalent to `memset`.
    ///
    /// # Errors
    ///
    /// Returns `Err` if the specified region is out of bounds.
    pub fn clear(&mut self, offset: usize, new_val: u8, len: usize) -> (result: Result<(), Error>)
        requires
            old(self).wf(),
        ensures
            final(self).wf(),
            result is Ok <==> old(self)@.access_defect(offset as nat, len as nat) is None,
            result is Ok ==> final(self)@ == old(self)@.written(
                offset as nat,
                crate::bytes::repeat(new_val, len as nat),
            ),
            result matches Err(error) ==> {
                &&& old(self)@.access_defect(offset as nat, len as nat) == Some(error.message())
                &&& final(self)@ == old(self)@
            },
            old(self).storage() matches Buffer::Fixed(given) ==> {
                &&& final(self).storage() matches Buffer::Fixed(kept)
                &&& final(kept)@ == final(given)@
            },
    {
        let region = match self.checked_region(offset, len) {
            Ok(region) => region,
            Err(error) => {
                return Err(error);
            },
        };
        if region.size > 0 {
            self.prepare_write(region);
            fill(self.buffer.as_mut_slice(), region.offset, new_val, region.size);
        }
        Ok(())
    }

    /// Fills the specified memory region with zeroes.
    ///
    /// # Errors
    ///
    /// Returns `Err` if the specified region is out of bounds.
    pub fn zero(&mut self, offset: usize, len: usize) -> (result: Result<(), Error>)
        requires
            old(self).wf(),
        ensures
            final(self).wf(),
            result is Ok <==> old(self)@.access_defect(offset as nat, len as nat) is None,
            result is Ok ==> final(self)@ == old(self)@.written(
                offset as nat,
                crate::bytes::repeat(0, len as nat),
            ),
            result matches Err(error) ==> {
                &&& old(self)@.access_defect(offset as nat, len as nat) == Some(error.message())
                &&& final(self)@ == old(self)@
            },
            old(self).storage() matches Buffer::Fixed(given) ==> {
                &&& final(self).storage() matches Buffer::Fixed(kept)
                &&& final(kept)@ == final(given)@
            },
    {
        self.clear(offset, 0, len)
    }
}

/// Where a transfer of bytes goes.
pub enum Destination<'a> {
    /// To the memory that the bytes come from.
    SameMemory,
    /// To a memory other than the one that the bytes come from.
    OtherMemory(&'a mut MemoryInstance),
}

} // verus!
