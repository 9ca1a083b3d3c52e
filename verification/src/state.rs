//! What a memory is, independently of how it is stored.
use vstd::prelude::*;

verus! {

/// The state of a memory.
#[verifier::ext_equal]
pub struct MemoryState {
    /// The number of pages that the memory was created with.
    pub initial: nat,
    /// The number of pages that the memory can grow to, if it was limited.
    pub maximum: Option<nat>,
    /// The number of bytes that the memory has.
    pub size: nat,
    /// The bytes that are in storage.
    pub stored: Seq<u8>,
    /// The number of bytes, from the first on, that accesses have reached.
    pub reached: nat,
    /// One more than the highest address that has been written to, or 0 if none has.
    pub used: nat,
    /// The value it was last reset to, at first `u32::MAX`, or the lowest address that has been
    /// written to since, whichever is lower.
    pub lowest_used: nat,
    /// Whether storage is taken as accesses reach it. If not, the memory was given all its
    /// storage when it was created.
    pub growable: bool,
}

/// The larger of two numbers.
pub open spec fn larger(a: nat, b: nat) -> nat {
    if a < b {
        b
    } else {
        a
    }
}

/// The smaller of two numbers.
pub open spec fn smaller(a: nat, b: nat) -> nat {
    if a < b {
        a
    } else {
        b
    }
}

impl MemoryState {
    /// A memory that has just been created, in which every byte is zero.
    pub open spec fn zeroed(initial: nat, maximum: Option<nat>) -> MemoryState {
        MemoryState {
            initial,
            maximum,
            size: crate::units::bytes_in(initial as int) as nat,
            stored: Seq::empty(),
            reached: 0,
            used: 0,
            lowest_used: u32::MAX as nat,
            growable: true,
        }
    }

    /// A memory that has just been created in the bytes `storage`.
    pub open spec fn over(storage: Seq<u8>) -> MemoryState {
        MemoryState {
            initial: storage.len() / 65536,
            maximum: Some(storage.len() / 65536),
            size: storage.len(),
            stored: storage,
            reached: 0,
            used: 0,
            lowest_used: u32::MAX as nat,
            growable: false,
        }
    }

    /// All bytes of the memory. Those that are not in storage are zero.
    pub open spec fn contents(self) -> Seq<u8> {
        crate::bytes::resized(self.stored, self.size, 0)
    }

    /// The number of pages that the memory has.
    pub open spec fn pages(self) -> nat {
        self.size / 65536
    }

    /// The number of pages that the memory can grow to.
    pub open spec fn limit(self) -> nat {
        limit_of(self.maximum)
    }

    /// What holds of every memory at all times.
    pub open spec fn valid(self) -> bool {
        // The size is a whole number of pages, which starts as the initial size and only grows
        // within the limit.
        &&& self.size == crate::units::bytes_in(self.pages() as int)
        &&& self.initial <= self.pages()
        &&& self.pages() == self.initial || self.pages() <= self.limit()
        &&& self.initial <= crate::validation::LINEAR_MEMORY_MAX_PAGES
        &&& self.limit() <= crate::validation::LINEAR_MEMORY_MAX_PAGES
        &&& self.size <= usize::MAX
        // Writes have reached no further than accesses, and these no further than the memory.
        &&& self.used <= self.reached <= self.size
        // A memory that was given its storage has all of it, and never grows.
        &&& !self.growable ==> {
            &&& self.stored.len() == self.size
            &&& self.maximum == Some(self.initial)
        }
        &&& self.lowest_used <= u32::MAX
    }

    /// The `size` bytes from `offset` on.
    pub open spec fn region(self, offset: nat, size: nat) -> Seq<u8> {
        self.contents().subrange(offset as int, (offset + size) as int)
    }

    /// Why the `size` bytes from `offset` on cannot be accessed, if they cannot.
    pub open spec fn access_defect(self, offset: nat, size: nat) -> Option<Seq<char>> {
        if offset + size > usize::MAX {
            Some(crate::error::unaddressable_region(offset, size))
        } else if offset + size > self.size {
            Some(crate::error::region_out_of_bounds(offset, offset + size, self.reached))
        } else {
            None
        }
    }

    /// Why the `size1` bytes from `offset1` on and the `size2` bytes from `offset2` on cannot be
    /// accessed together, if they cannot.
    ///
    /// The first of the two regions that ends beyond the reached bytes is the one that is named.
    pub open spec fn pair_defect(
        self,
        offset1: nat,
        size1: nat,
        offset2: nat,
        size2: nat,
    ) -> Option<Seq<char>> {
        let end1 = offset1 + size1;
        let end2 = offset2 + size2;
        if end1 > usize::MAX {
            Some(crate::error::unaddressable_region(offset1, size1))
        } else if end2 > usize::MAX {
            Some(crate::error::unaddressable_region(offset2, size2))
        } else if end1 <= self.size && end2 <= self.size {
            None
        } else if end1 > self.reached {
            Some(crate::error::region_out_of_bounds(offset1, end1, self.reached))
        } else {
            Some(crate::error::region_out_of_bounds(offset2, end2, self.reached))
        }
    }

    /// Why the memory cannot grow by `additional` pages, if it cannot.
    pub open spec fn growth_defect(self, additional: nat) -> Option<Seq<char>> {
        growth_defect(self.pages(), self.limit(), additional)
    }

    /// An access that ends before byte `end` cuts the storage there.
    ///
    /// This is so only where direct access has lengthened the storage beyond what accesses have
    /// reached.
    pub open spec fn cuts(self, end: nat) -> bool {
        self.growable && self.reached < end < self.stored.len()
    }

    /// The memory after an access that ends before byte `end`.
    pub open spec fn touched(self, end: nat) -> MemoryState {
        if end <= self.reached {
            self
        } else if self.growable {
            MemoryState {
                stored: crate::bytes::resized(self.stored, end, 0),
                reached: end,
                ..self
            }
        } else {
            MemoryState { reached: self.size, ..self }
        }
    }

    /// An access does not change the bytes that it accesses.
    pub proof fn lemma_touch_keeps_region(self, offset: nat, size: nat)
        requires
            offset + size <= self.size,
        ensures
            self.touched(offset + size).region(offset, size) == self.region(offset, size),
    {
        assert(self.touched(offset + size).region(offset, size) =~= self.region(offset, size));
    }

    /// An access to two regions does not change the bytes of the first.
    pub proof fn lemma_pair_touch_keeps_region(self, src: nat, dst: nat, len: nat)
        requires
            src + len <= self.size,
            dst + len <= self.size,
        ensures
            self.touched_pair(src, dst, len).region(src, len) == self.region(src, len),
    {
        assert(self.touched_pair(src, dst, len).region(src, len) =~= self.region(src, len));
    }

    /// The memory after `patch` was put at `offset`, which an access has reached. Putting no bytes
    /// changes nothing.
    pub open spec fn patched(self, offset: nat, patch: Seq<u8>) -> MemoryState {
        let end = offset + patch.len();
        if patch.len() == 0 {
            self
        } else {
            MemoryState {
                stored: crate::bytes::splice(
                    crate::bytes::resized(self.stored, larger(self.stored.len(), end), 0),
                    offset as int,
                    patch,
                ),
                used: larger(self.used, end),
                lowest_used: smaller(self.lowest_used, offset),
                ..self
            }
        }
    }

    /// Putting `patch` at `offset` replaces the bytes there and no others.
    pub proof fn lemma_patched_contents(self, offset: nat, patch: Seq<u8>)
        requires
            self.valid(),
            offset + patch.len() <= self.reached,
        ensures
            self.patched(offset, patch).valid(),
            forall|i: int|
                0 <= i < self.size ==> #[trigger] self.patched(offset, patch).contents()[i] == if offset
                    <= i < offset + patch.len() {
                    patch[i - offset]
                } else {
                    self.contents()[i]
                },
    {
    }

    /// The memory after `patch` was written from `offset` on.
    pub open spec fn written(self, offset: nat, patch: Seq<u8>) -> MemoryState {
        self.touched(offset + patch.len()).patched(offset, patch)
    }

    /// Why `len` bytes from `src` on cannot be copied to the bytes from `dst` on, if they cannot.
    pub open spec fn copy_defect(self, src: nat, dst: nat, len: nat) -> Option<Seq<char>> {
        self.pair_defect(src, len, dst, len)
    }

    /// The memory after both the `len` bytes from `src` on and those from `dst` on were accessed.
    pub open spec fn touched_pair(self, src: nat, dst: nat, len: nat) -> MemoryState {
        self.touched(larger(src + len, dst + len))
    }

    /// The memory after `len` bytes from `src` on were copied to the bytes from `dst` on.
    pub open spec fn copied(self, src: nat, dst: nat, len: nat) -> MemoryState {
        self.touched_pair(src, dst, len).patched(dst, self.region(src, len))
    }

    /// The memory after it grew by `additional` pages.
    pub open spec fn grown(self, additional: nat) -> MemoryState {
        MemoryState {
            size: (self.size + crate::units::bytes_in(additional as int)) as nat,
            ..self
        }
    }

    /// The memory after its storage was set to `bytes`.
    pub open spec fn restored(self, bytes: Seq<u8>) -> MemoryState {
        MemoryState { stored: bytes, ..self }
    }
}

/// The number of pages that a memory with this maximum can grow to.
pub open spec fn limit_of(maximum: Option<nat>) -> nat {
    match maximum {
        Some(most) => most,
        None => crate::validation::LINEAR_MEMORY_MAX_PAGES as nat,
    }
}

/// Why a memory of `present` pages that is limited to `limit` pages cannot grow by `additional`
/// pages, if it cannot.
pub open spec fn growth_defect(present: nat, limit: nat, additional: nat) -> Option<Seq<char>> {
    if additional == 0 {
        None
    } else if additional > crate::validation::LINEAR_MEMORY_MAX_PAGES {
        Some(crate::error::growth_too_large())
    } else if present + additional > limit {
        Some(crate::error::growth_over_limit(additional, present))
    } else {
        None
    }
}

} // verus!
