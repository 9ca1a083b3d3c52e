//! What holds of memories across operations.
//!
//! The functions of [`MemoryInstance`](crate::memory::MemoryInstance) state their effects over
//! [`MemoryState`]; the statements here relate these effects to each other. [`effects`] says what
//! each effect is, byte by byte, [`refusals`] which requests fail and with what text, and [`values`]
//! which bytes and digits stand for a number.
pub mod effects;
pub mod refusals;
pub mod values;

use crate::memory::MemoryInstance;
use crate::state::MemoryState;
use crate::units::Pages;
use crate::value::LittleEndianConvert;
use vstd::prelude::*;

verus! {

/// A region can be accessed if and only if it ends within the current size of the memory.
pub proof fn access_is_bounds_checked(memory: MemoryState, offset: nat, size: nat)
    requires
        memory.valid(),
    ensures
        memory.access_defect(offset, size) is None <==> offset + size <= memory.size,
{
}

/// Two regions can be accessed together if and only if each can be accessed alone.
pub proof fn pair_access_is_both_accesses(
    memory: MemoryState,
    offset1: nat,
    size1: nat,
    offset2: nat,
    size2: nat,
)
    requires
        memory.valid(),
    ensures
        memory.pair_defect(offset1, size1, offset2, size2) is None <==> {
            &&& memory.access_defect(offset1, size1) is None
            &&& memory.access_defect(offset2, size2) is None
        },
{
}

/// An access changes the storage only: of the other figures only the reached size changes, which
/// then covers the accessed bytes. It changes no byte of the memory, unless direct access has left
/// more storage than was reached and the access ends within it: what lies beyond is then lost.
pub proof fn access_keeps_contents(memory: MemoryState, offset: nat, size: nat)
    requires
        memory.valid(),
        memory.access_defect(offset, size) is None,
    ensures
        ({
            let end = offset + size;
            let after = memory.touched(end);
            &&& after.valid()
            &&& after == (MemoryState { stored: after.stored, reached: after.reached, ..memory })
            &&& after.reached >= memory.reached
            &&& after.reached >= end
            &&& after.region(offset, size) == memory.region(offset, size)
            &&& !memory.cuts(end) ==> after.contents() == memory.contents()
            &&& forall|i: int|
                0 <= i < memory.size ==> #[trigger] after.contents()[i] == if i < end
                    || !memory.cuts(end) {
                    memory.contents()[i]
                } else {
                    0
                }
            &&& forall|o: nat, s: nat| #[trigger]
                after.access_defect(o, s) is None <==> memory.access_defect(o, s) is None
        }),
{
    let end = offset + size;
    let after = memory.touched(end);
    memory.lemma_touch_keeps_region(offset, size);
    if !memory.cuts(end) {
        assert(after.contents() =~= memory.contents());
    }
}

/// Where direct access has not left more storage than was reached, no access loses a byte.
pub proof fn settled_storage_is_never_cut(memory: MemoryState, end: nat)
    requires
        memory.stored.len() <= memory.reached,
    ensures
        !memory.cuts(end),
        memory.growable ==> {
            let after = memory.touched(end);
            after.stored.len() <= after.reached
        },
{
}

/// A write leaves a valid memory of the same size and limits.
pub proof fn write_keeps_validity(memory: MemoryState, offset: nat, patch: Seq<u8>)
    requires
        memory.valid(),
        memory.access_defect(offset, patch.len()) is None,
    ensures
        ({
            let after = memory.written(offset, patch);
            &&& after.valid()
            &&& after.size == memory.size
            &&& after.initial == memory.initial
            &&& after.maximum == memory.maximum
        }),
{
}

/// What was written to a region is what is read from it.
pub proof fn read_gives_back_write(memory: MemoryState, offset: nat, patch: Seq<u8>)
    requires
        memory.valid(),
        memory.access_defect(offset, patch.len()) is None,
    ensures
        ({
            let after = memory.written(offset, patch);
            &&& after.access_defect(offset, patch.len()) is None
            &&& after.region(offset, patch.len()) == patch
        }),
{
    let after = memory.written(offset, patch);
    access_keeps_contents(memory, offset, patch.len());
    memory.touched(offset + patch.len()).lemma_patched_contents(offset, patch);
    assert(after.region(offset, patch.len()) =~= patch);
}

/// A write does not change the regions that it does not overlap, unless it cuts the storage before
/// their end.
pub proof fn write_keeps_other_regions(
    memory: MemoryState,
    offset: nat,
    patch: Seq<u8>,
    other_offset: nat,
    other_size: nat,
)
    requires
        memory.valid(),
        memory.access_defect(offset, patch.len()) is None,
        memory.access_defect(other_offset, other_size) is None,
        !crate::region::overlapping(
            offset as int,
            patch.len() as int,
            other_offset as int,
            other_size as int,
        ),
        memory.cuts(offset + patch.len()) ==> other_offset + other_size <= offset + patch.len(),
    ensures
        memory.written(offset, patch).region(other_offset, other_size) == memory.region(
            other_offset,
            other_size,
        ),
{
    let after = memory.written(offset, patch);
    access_keeps_contents(memory, offset, patch.len());
    memory.touched(offset + patch.len()).lemma_patched_contents(offset, patch);
    assert forall|i: int| other_offset <= i < other_offset + other_size implies after.contents()[i]
        == memory.contents()[i] by {
        assert(crate::region::in_region(i, other_offset as int, other_size as int));
        assert(!crate::region::in_region(i, offset as int, patch.len() as int));
    }
    assert(after.region(other_offset, other_size) =~= memory.region(other_offset, other_size));
}

/// Of two writes to the same region, the memory holds the second.
pub proof fn last_write_wins(memory: MemoryState, offset: nat, first: Seq<u8>, second: Seq<u8>)
    requires
        memory.valid(),
        memory.access_defect(offset, second.len()) is None,
        first.len() == second.len(),
    ensures
        memory.written(offset, first).written(offset, second) == memory.written(offset, second),
{
    assert(memory.written(offset, first).written(offset, second) =~= memory.written(
        offset,
        second,
    ));
}

/// The number of bytes in storage after a write that ends before byte `end`.
spec fn stored_len_after_write(memory: MemoryState, end: nat, empty: bool) -> nat {
    if !memory.growable {
        memory.size
    } else if end > memory.reached {
        end
    } else if empty {
        memory.stored.len()
    } else {
        crate::state::larger(memory.stored.len(), end)
    }
}

/// The bytes in storage after a write.
proof fn lemma_stored_after_write(memory: MemoryState, offset: nat, patch: Seq<u8>)
    requires
        memory.valid(),
        memory.access_defect(offset, patch.len()) is None,
    ensures
        ({
            let after = memory.written(offset, patch);
            &&& after.stored.len() == stored_len_after_write(
                memory,
                offset + patch.len(),
                patch.len() == 0,
            )
            &&& forall|i: int|
                0 <= i < after.stored.len() ==> #[trigger] after.stored[i]
                    == if crate::region::in_region(i, offset as int, patch.len() as int) {
                    patch[i - offset]
                } else if i < memory.stored.len() {
                    memory.stored[i]
                } else {
                    0
                }
        }),
{
}

/// Writes to regions that do not overlap can be made in either order, unless the one that ends
/// first cuts the storage.
pub proof fn disjoint_writes_commute(
    memory: MemoryState,
    offset1: nat,
    patch1: Seq<u8>,
    offset2: nat,
    patch2: Seq<u8>,
)
    requires
        memory.valid(),
        memory.access_defect(offset1, patch1.len()) is None,
        memory.access_defect(offset2, patch2.len()) is None,
        !crate::region::overlapping(
            offset1 as int,
            patch1.len() as int,
            offset2 as int,
            patch2.len() as int,
        ),
        !memory.cuts(crate::state::smaller(offset1 + patch1.len(), offset2 + patch2.len())),
    ensures
        memory.written(offset1, patch1).written(offset2, patch2) == memory.written(
            offset2,
            patch2,
        ).written(offset1, patch1),
{
    let first = memory.written(offset1, patch1);
    let second = memory.written(offset2, patch2);
    let a = first.written(offset2, patch2);
    let b = second.written(offset1, patch1);
    write_keeps_validity(memory, offset1, patch1);
    write_keeps_validity(memory, offset2, patch2);
    lemma_stored_after_write(memory, offset1, patch1);
    lemma_stored_after_write(memory, offset2, patch2);
    lemma_stored_after_write(first, offset2, patch2);
    lemma_stored_after_write(second, offset1, patch1);
    assert(a.stored.len() == b.stored.len());
    assert forall|i: int| 0 <= i < a.stored.len() implies a.stored[i] == b.stored[i] by {
        let in_first = crate::region::in_region(i, offset1 as int, patch1.len() as int);
        let in_second = crate::region::in_region(i, offset2 as int, patch2.len() as int);
        assert(!(in_first && in_second));
    }
    assert(a.stored =~= b.stored);
    assert(a =~= b);
}

/// A value that is read where a value was written is that value.
pub proof fn read_gives_back_value<T: LittleEndianConvert>(
    memory: MemoryState,
    offset: nat,
    value: T,
    read: T,
)
    requires
        memory.valid(),
        memory.access_defect(offset, vstd::layout::size_of::<T>()) is None,
        read.le_bytes() == memory.written(offset, value.le_bytes()).region(offset, vstd::layout::size_of::<T>()),
    ensures
        read == value,
{
    value.lemma_le_bytes_len();
    read_gives_back_write(memory, offset, value.le_bytes());
    T::lemma_le_bytes_injective(read, value);
}

/// Every region of a memory that has just been allocated is zero.
pub proof fn fresh_memory_is_zero(
    initial: nat,
    maximum: Option<nat>,
    offset: nat,
    size: nat,
)
    requires
        MemoryState::zeroed(initial, maximum).access_defect(offset, size) is None,
    ensures
        MemoryState::zeroed(initial, maximum).region(offset, size) == crate::bytes::repeat(0, size),
{
    assert(MemoryState::zeroed(initial, maximum).region(offset, size) =~= crate::bytes::repeat(
        0,
        size,
    ));
}

/// A memory that has just been allocated with valid limits is a valid memory of as many pages as
/// were asked for, of which nothing was used.
pub proof fn fresh_memory_has_initial_size(initial: nat, maximum: Option<nat>)
    requires
        crate::validation::limits_valid(initial, maximum),
        crate::units::bytes_in(initial as int) <= usize::MAX,
    ensures
        ({
            let memory = MemoryState::zeroed(initial, maximum);
            &&& memory.valid()
            &&& memory.pages() == initial
            &&& memory.stored.len() == 0
            &&& memory.reached == 0
            &&& memory.used == 0
            &&& memory.lowest_used == u32::MAX
        }),
{
}

/// A memory can be allocated if and only if its limits are valid.
pub proof fn allocation_needs_valid_limits(initial: nat, maximum: Option<nat>)
    ensures
        crate::memory::alloc_defect(initial, maximum) is None <==> {
            &&& initial <= 65536
            &&& maximum matches Some(most) ==> initial <= most && most <= 65536
        },
{
}

/// At all times, the size of a memory is a whole number of pages, at least as many as it was
/// created with, no more than 65536, and no more than its maximum unless it was created above it.
pub proof fn size_stays_within_limits(memory: MemoryInstance)
    requires
        memory.wf(),
    ensures
        memory@.valid(),
        memory@.size == memory@.pages() * 65536,
        memory@.initial <= memory@.pages() <= 65536,
        memory@.maximum matches Some(most) ==> memory@.initial <= most ==> memory@.pages() <= most,
        memory@.used <= memory@.reached <= memory@.size,
{
    memory.lemma_wf_is_valid();
}

/// A memory can grow by some pages if and only if it does not become larger than its limit.
pub proof fn growth_is_limited(memory: MemoryState, additional: Pages)
    requires
        memory.valid(),
        additional.0 > 0,
    ensures
        memory.growth_defect(additional.0 as nat) is None <==> memory.pages() + additional.0
            <= memory.limit(),
{
}

/// A memory that grows keeps what it holds. What it gains is zero, unless direct access has left
/// more storage than the memory had bytes: it then gains what that storage holds.
pub proof fn growth_keeps_contents(memory: MemoryState, additional: nat)
    requires
        memory.valid(),
        memory.growth_defect(additional) is None,
        crate::units::bytes_in((memory.pages() + additional) as int) <= usize::MAX,
    ensures
        ({
            let after = memory.grown(additional);
            &&& after.valid()
            &&& after.pages() == memory.pages() + additional
            &&& after == (MemoryState { size: after.size, ..memory })
            &&& forall|o: nat, s: nat|
                memory.access_defect(o, s) is None ==> #[trigger] after.access_defect(o, s) is None
                    && after.region(o, s) == memory.region(o, s)
            &&& forall|i: int|
                memory.size <= i < after.size ==> #[trigger] after.contents()[i] == if i
                    < memory.stored.len() {
                    memory.stored[i]
                } else {
                    0
                }
        }),
{
    let after = memory.grown(additional);
    assert(after.pages() == memory.pages() + additional);
    assert forall|o: nat, s: nat| memory.access_defect(o, s) is None implies #[trigger]
        after.access_defect(o, s) is None && after.region(o, s) == memory.region(o, s) by {
        assert(after.region(o, s) =~= memory.region(o, s));
    }
}

/// Growing twice is growing once by the sum, and is possible if and only if that is.
pub proof fn growth_adds_up(memory: MemoryState, first: nat, second: nat)
    requires
        memory.valid(),
    ensures
        memory.growth_defect(first + second) is None <==> {
            &&& memory.growth_defect(first) is None
            &&& memory.grown(first).growth_defect(second) is None
        },
        memory.grown(first).grown(second) == memory.grown(first + second),
{
    assert(memory.grown(first).pages() == memory.pages() + first);
    assert(memory.grown(first).grown(second) =~= memory.grown(first + second));
}

/// Growing by nothing succeeds and changes nothing.
pub proof fn growth_by_nothing(memory: MemoryState)
    ensures
        memory.growth_defect(0) is None,
        memory.grown(0) == memory,
{
    assert(memory.grown(0) =~= memory);
}

/// A memory that was created in storage that it was given never grows.
pub proof fn given_storage_never_grows(memory: MemoryState, additional: nat)
    requires
        memory.valid(),
        !memory.growable,
        additional > 0,
    ensures
        memory.growth_defect(additional) is Some,
{
}

/// After a copy the destination holds what the source held before, even if the two overlap, and
/// no byte outside the destination has changed, unless the copy cuts the storage before it.
pub proof fn copy_moves_region(memory: MemoryState, src: nat, dst: nat, len: nat)
    requires
        memory.valid(),
        memory.copy_defect(src, dst, len) is None,
    ensures
        ({
            let end = crate::state::larger(src + len, dst + len);
            let after = memory.copied(src, dst, len);
            &&& after.valid()
            &&& after.size == memory.size
            &&& after.region(dst, len) == memory.region(src, len)
            &&& forall|i: int|
                0 <= i < memory.size && !crate::region::in_region(i, dst as int, len as int) && (i
                    < end || !memory.cuts(end)) ==> #[trigger] after.contents()[i]
                    == memory.contents()[i]
        }),
{
    let end = crate::state::larger(src + len, dst + len);
    let after = memory.copied(src, dst, len);
    access_keeps_contents(memory, 0, end);
    memory.touched(end).lemma_patched_contents(dst, memory.region(src, len));
    assert(after.region(dst, len) =~= memory.region(src, len));
}

/// A copy between regions that do not overlap keeps the source.
pub proof fn disjoint_copy_keeps_source(memory: MemoryState, src: nat, dst: nat, len: nat)
    requires
        memory.valid(),
        memory.copy_defect(src, dst, len) is None,
        !crate::region::overlapping(src as int, len as int, dst as int, len as int),
    ensures
        memory.copied(src, dst, len).region(src, len) == memory.region(src, len),
        memory.copied(src, dst, len).region(dst, len) == memory.region(src, len),
{
    let after = memory.copied(src, dst, len);
    copy_moves_region(memory, src, dst, len);
    assert forall|i: int| src <= i < src + len implies after.contents()[i]
        == memory.contents()[i] by {
        assert(crate::region::in_region(i, src as int, len as int));
    }
    assert(after.region(src, len) =~= memory.region(src, len));
}

/// Copying a region onto itself changes no byte, unless it cuts the storage.
pub proof fn copy_onto_itself(memory: MemoryState, offset: nat, len: nat)
    requires
        memory.valid(),
        memory.copy_defect(offset, offset, len) is None,
        !memory.cuts(offset + len),
    ensures
        memory.copied(offset, offset, len).contents() == memory.contents(),
{
    let after = memory.copied(offset, offset, len);
    copy_moves_region(memory, offset, offset, len);
    assert forall|i: int| 0 <= i < memory.size implies after.contents()[i]
        == memory.contents()[i] by {
        if crate::region::in_region(i, offset as int, len as int) {
            assert(after.region(offset, len)[i - offset] == memory.region(offset, len)[i - offset]);
        }
    }
    assert(after.contents() =~= memory.contents());
}

/// After a transfer between two memories the destination holds what the source held, and no other
/// byte of the destination has changed, unless the transfer cuts its storage before it.
pub proof fn transfer_moves_region(
    from: MemoryState,
    src: nat,
    to: MemoryState,
    dst: nat,
    len: nat,
)
    requires
        from.valid(),
        to.valid(),
        from.access_defect(src, len) is None,
        to.access_defect(dst, len) is None,
    ensures
        ({
            let after = to.written(dst, from.region(src, len));
            &&& after.valid()
            &&& after.region(dst, len) == from.region(src, len)
            &&& forall|i: int|
                0 <= i < to.size && !crate::region::in_region(i, dst as int, len as int) && (i < dst
                    + len || !to.cuts(dst + len)) ==> #[trigger] after.contents()[i]
                    == to.contents()[i]
        }),
{
    let after = to.written(dst, from.region(src, len));
    access_keeps_contents(to, dst, len);
    to.touched(dst + len).lemma_patched_contents(dst, from.region(src, len));
    assert(after.region(dst, len) =~= from.region(src, len));
}

/// Two regions of the same length overlap if and only if they start less than that length apart.
pub proof fn overlap_is_nearness(a: int, b: int, len: int)
    requires
        len >= 0,
    ensures
        crate::region::overlapping(a, len, b, len) <==> a < b + len && b < a + len,
{
    if a < b + len && b < a + len {
        let i = if a < b {
            b
        } else {
            a
        };
        assert(crate::region::in_region(i, a, len) && crate::region::in_region(i, b, len));
    }
}

/// Which region is named first does not matter to whether they overlap.
pub proof fn overlap_is_symmetric(offset1: int, size1: int, offset2: int, size2: int)
    ensures
        crate::region::overlapping(offset1, size1, offset2, size2) == crate::region::overlapping(
            offset2,
            size2,
            offset1,
            size1,
        ),
{
    if crate::region::overlapping(offset1, size1, offset2, size2) {
        let i = choose|i: int| #[trigger]
            crate::region::in_region(i, offset1, size1) && crate::region::in_region(
                i,
                offset2,
                size2,
            );
        assert(crate::region::in_region(i, offset2, size2));
    }
    if crate::region::overlapping(offset2, size2, offset1, size1) {
        let i = choose|i: int| #[trigger]
            crate::region::in_region(i, offset2, size2) && crate::region::in_region(
                i,
                offset1,
                size1,
            );
        assert(crate::region::in_region(i, offset1, size1));
    }
}

/// After a fill every byte of the region is the fill value.
pub proof fn fill_sets_every_byte(memory: MemoryState, offset: nat, value: u8, len: nat)
    requires
        memory.valid(),
        memory.access_defect(offset, len) is None,
    ensures
        memory.written(offset, crate::bytes::repeat(value, len)).region(
            offset,
            len,
        ) == crate::bytes::repeat(value, len),
{
    read_gives_back_write(memory, offset, crate::bytes::repeat(value, len));
}

/// The tracked lowest offset is the lower of what it was and the offset of the write.
pub proof fn writes_lower_lowest_used(memory: MemoryState, offset: nat, patch: Seq<u8>)
    requires
        memory.valid(),
        memory.access_defect(offset, patch.len()) is None,
        patch.len() > 0,
    ensures
        ({
            let after = memory.written(offset, patch);
            &&& after.lowest_used <= memory.lowest_used
            &&& after.lowest_used <= offset
            &&& after.lowest_used == memory.lowest_used || after.lowest_used == offset
        }),
{
}

/// The used size is the larger of what it was and the end of the write.
pub proof fn writes_raise_used(memory: MemoryState, offset: nat, patch: Seq<u8>)
    requires
        memory.valid(),
        memory.access_defect(offset, patch.len()) is None,
        patch.len() > 0,
    ensures
        ({
            let after = memory.written(offset, patch);
            &&& memory.used <= after.used
            &&& offset + patch.len() <= after.used
            &&& after.used == memory.used || after.used == offset + patch.len()
        }),
{
}

/// Writing no bytes changes neither the used size nor the lowest offset. It is an access all the
/// same.
pub proof fn empty_write_is_access(memory: MemoryState, offset: nat, patch: Seq<u8>)
    requires
        patch.len() == 0,
    ensures
        memory.written(offset, patch) == memory.touched(offset),
        memory.written(offset, patch).used == memory.used,
        memory.written(offset, patch).lowest_used == memory.lowest_used,
{
}

/// The bytes in storage are the first bytes of the memory, and all other bytes are zero.
pub proof fn storage_is_prefix(memory: MemoryState)
    requires
        memory.valid(),
    ensures
        memory.contents().len() == memory.size,
        forall|i: int|
            0 <= i < memory.size ==> #[trigger] memory.contents()[i] == if i < memory.stored.len() {
                memory.stored[i]
            } else {
                0
            },
        !memory.growable ==> memory.stored == memory.contents(),
{
    if !memory.growable {
        assert(memory.stored =~= memory.contents());
    }
}

/// A memory that takes storage as it is needed keeps as many bytes in storage as accesses have
/// reached, until direct access resizes the storage.
pub proof fn storage_follows_accesses(
    memory: MemoryState,
    end: nat,
    offset: nat,
    patch: Seq<u8>,
    additional: nat,
)
    requires
        memory.growable,
        memory.stored.len() == memory.reached,
    ensures
        memory.touched(end).stored.len() == memory.touched(end).reached,
        memory.written(offset, patch).stored.len() == memory.written(offset, patch).reached,
        memory.grown(additional).stored.len() == memory.grown(additional).reached,
{
}

/// A memory that takes storage as it is needed, and in which only writes have reached bytes, keeps
/// as many bytes in storage as are used when it is written to and when it grows.
pub proof fn storage_follows_writes(
    memory: MemoryState,
    offset: nat,
    patch: Seq<u8>,
    additional: nat,
)
    requires
        memory.growable,
        memory.stored.len() == memory.reached,
        memory.stored.len() == memory.used,
        patch.len() > 0,
    ensures
        memory.written(offset, patch).stored.len() == memory.written(offset, patch).reached,
        memory.written(offset, patch).stored.len() == memory.written(offset, patch).used,
        memory.grown(additional).stored.len() == memory.grown(additional).reached,
        memory.grown(additional).stored.len() == memory.grown(additional).used,
{
}

/// What a memory in given storage holds when it is done with is what is left in that storage.
pub proof fn given_storage_holds_contents(memory: MemoryInstance)
    requires
        memory.wf(),
        memory.storage() is Fixed,
        has_resolved(memory),
    ensures
        final(memory.storage()->Fixed_0)@ == memory@.contents(),
{
    memory.lemma_given_storage_resolves();
}

/// Direct access that leaves the storage as it was leaves the memory as it was.
pub proof fn untouched_storage_keeps_memory(memory: MemoryState)
    ensures
        memory.restored(memory.stored) == memory,
{
}

/// Direct access leaves a valid memory of the same size, of which no more is used or reached than
/// before.
pub proof fn direct_access_keeps_validity(memory: MemoryState, bytes: Seq<u8>)
    requires
        memory.valid(),
        !memory.growable ==> bytes.len() == memory.size,
    ensures
        memory.restored(bytes).valid(),
        memory.restored(bytes) == (MemoryState { stored: bytes, ..memory }),
{
}

} // verus!
