//! What each operation leaves in a memory, byte by byte and figure by figure.
use crate::allocator::Allocator;
use crate::allocator::Buffer;
use crate::state::MemoryState;
use vstd::prelude::*;

verus! {

/// Every one of `count` repeated bytes is the repeated value.
pub proof fn repeated_bytes(value: u8, count: nat)
    ensures
        crate::bytes::repeat(value, count).len() == count,
        forall|i: int| 0 <= i < count ==> #[trigger] crate::bytes::repeat(value, count)[i] == value,
{
}

/// A resized run of bytes has the new length. It keeps the bytes that fit, and the bytes that it
/// gains are all the given value.
pub proof fn resized_bytes(base: Seq<u8>, size: nat, value: u8)
    ensures
        ({
            let after = crate::bytes::resized(base, size, value);
            &&& after.len() == size
            &&& forall|i: int|
                0 <= i < size ==> #[trigger] after[i] == if i < base.len() {
                    base[i]
                } else {
                    value
                }
        }),
{
}

/// A patched run of bytes keeps its length. The patch stands at its place, and every other byte is
/// as it was.
pub proof fn spliced_bytes(base: Seq<u8>, offset: int, patch: Seq<u8>)
    requires
        0 <= offset,
        offset + patch.len() <= base.len(),
    ensures
        ({
            let after = crate::bytes::splice(base, offset, patch);
            &&& after.len() == base.len()
            &&& forall|i: int|
                0 <= i < base.len() ==> #[trigger] after[i] == if offset <= i < offset
                    + patch.len() {
                    patch[i - offset]
                } else {
                    base[i]
                }
        }),
{
}

/// What a buffer holds is what its vector or its slice holds, and only a vector is growable.
pub proof fn buffer_holds_bytes(buffer: Buffer)
    ensures
        buffer matches Buffer::Growable(vector) ==> {
            &&& buffer.bytes() == vector@
            &&& vector.bytes() == vector@
            &&& buffer.growable()
            &&& vector.growable()
        },
        buffer matches Buffer::Fixed(slice) ==> {
            &&& buffer.bytes() == slice@
            &&& slice.bytes() == slice@
            &&& !buffer.growable()
            &&& !slice.growable()
        },
{
}

/// A memory that was created with limits starts with its initial size and nothing in storage:
/// nothing was reached or used, and every byte is zero.
pub proof fn fresh_memory(initial: nat, maximum: Option<nat>)
    ensures
        ({
            let memory = MemoryState::zeroed(initial, maximum);
            &&& memory.initial == initial
            &&& memory.maximum == maximum
            &&& memory.size == 65536 * initial
            &&& memory.stored.len() == 0
            &&& memory.reached == 0
            &&& memory.used == 0
            &&& memory.lowest_used == 0xffff_ffff
            &&& memory.growable
            &&& memory.contents().len() == 65536 * initial
            &&& forall|a: int| 0 <= a < memory.size ==> #[trigger] memory.contents()[a] == 0
        }),
{
}

/// A memory that was created in given bytes has just these bytes, and is limited to the pages that
/// they make. Nothing was reached or used.
pub proof fn memory_over_storage(storage: Seq<u8>)
    requires
        storage.len() % 65536 == 0,
    ensures
        ({
            let memory = MemoryState::over(storage);
            &&& 65536 * memory.initial == storage.len()
            &&& memory.maximum == Some(memory.initial)
            &&& memory.size == storage.len()
            &&& memory.stored == storage
            &&& memory.reached == 0
            &&& memory.used == 0
            &&& memory.lowest_used == 0xffff_ffff
            &&& !memory.growable
            &&& memory.contents() == storage
        }),
{
    assert(MemoryState::over(storage).contents() =~= storage);
}

/// A read of a region gives as many bytes as were asked for, each the byte of the memory at its
/// address: what is in storage there, or zero. How much was reached or used does not matter.
pub proof fn read_shows_contents(memory: MemoryState, offset: nat, size: nat)
    requires
        offset + size <= memory.size,
    ensures
        ({
            let read = memory.region(offset, size);
            &&& memory.contents().len() == memory.size
            &&& read.len() == size
            &&& forall|i: int|
                0 <= i < size ==> #[trigger] read[i] == memory.contents()[offset + i]
            &&& forall|i: int|
                0 <= i < size ==> #[trigger] read[i] == if offset + i < memory.stored.len() {
                    memory.stored[offset + i]
                } else {
                    0
                }
        }),
{
}

/// Two reads agree on every address that both of them cover.
pub proof fn reads_agree(
    memory: MemoryState,
    offset1: nat,
    size1: nat,
    offset2: nat,
    size2: nat,
    address: int,
)
    requires
        offset1 + size1 <= memory.size,
        offset2 + size2 <= memory.size,
        offset1 <= address < offset1 + size1,
        offset2 <= address < offset2 + size2,
    ensures
        memory.region(offset1, size1)[address - offset1] == memory.region(offset2, size2)[address
            - offset2],
{
}

/// An access takes storage up to its end if it ends beyond all accesses before it: then storage
/// ends where the access ends, and what it gains is zero. Otherwise it changes nothing. Storage
/// that was given is taken whole. No access changes a size, a limit or what counts as written.
pub proof fn access_takes_storage(memory: MemoryState, end: nat)
    ensures
        ({
            let after = memory.touched(end);
            &&& after.initial == memory.initial
            &&& after.maximum == memory.maximum
            &&& after.size == memory.size
            &&& after.used == memory.used
            &&& after.lowest_used == memory.lowest_used
            &&& after.growable == memory.growable
            &&& after.reached == if end <= memory.reached {
                memory.reached
            } else if memory.growable {
                end
            } else {
                memory.size
            }
            &&& end <= memory.reached || !memory.growable ==> after.stored == memory.stored
            &&& end > memory.reached && memory.growable ==> {
                &&& after.stored.len() == end
                &&& forall|i: int|
                    0 <= i < end ==> #[trigger] after.stored[i] == if i < memory.stored.len() {
                        memory.stored[i]
                    } else {
                        0
                    }
            }
        }),
{
}

/// An access to two regions of the same size takes storage as an access to the later one does.
pub proof fn pair_access_takes_storage(memory: MemoryState, src: nat, dst: nat, len: nat)
    ensures
        src <= dst ==> memory.touched_pair(src, dst, len) == memory.touched(dst + len),
        dst <= src ==> memory.touched_pair(src, dst, len) == memory.touched(src + len),
{
}

/// An access cuts the storage if and only if the storage is growable, was left longer than accesses
/// have reached, and the access ends between the two.
pub proof fn cut_is_left_over_storage(memory: MemoryState, end: nat)
    ensures
        memory.cuts(end) <==> {
            &&& memory.growable
            &&& memory.reached < end
            &&& end < memory.stored.len()
        },
{
}

/// A write puts its bytes at their addresses and changes no other byte in storage. It takes
/// storage as an access does. If it writes any byte, the used size is then at least its end, the
/// lowest offset at most its start, and both are otherwise as they were.
pub proof fn write_effects(memory: MemoryState, offset: nat, patch: Seq<u8>)
    requires
        offset + patch.len() <= memory.size,
        !memory.growable ==> memory.stored.len() == memory.size,
    ensures
        ({
            let end = offset + patch.len();
            let after = memory.written(offset, patch);
            &&& after.initial == memory.initial
            &&& after.maximum == memory.maximum
            &&& after.size == memory.size
            &&& after.growable == memory.growable
            &&& after.reached == if end <= memory.reached {
                memory.reached
            } else if memory.growable {
                end
            } else {
                memory.size
            }
            &&& after.used == if patch.len() > 0 && end > memory.used {
                end
            } else {
                memory.used
            }
            &&& after.lowest_used == if patch.len() > 0 && offset < memory.lowest_used {
                offset
            } else {
                memory.lowest_used
            }
            &&& after.stored.len() == if !memory.growable {
                memory.stored.len()
            } else if end > memory.reached || (patch.len() > 0 && end > memory.stored.len()) {
                end
            } else {
                memory.stored.len()
            }
            &&& forall|i: int|
                0 <= i < after.stored.len() ==> #[trigger] after.stored[i] == if offset <= i
                    < end {
                    patch[i - offset]
                } else if i < memory.stored.len() {
                    memory.stored[i]
                } else {
                    0
                }
        }),
{
}

/// A read after a write shows the written bytes at their addresses, wherever the two regions
/// overlap: whether the one encloses the other or not. At every other address it shows what the
/// memory held before, except where the write has cut storage that direct access left over.
pub proof fn read_shows_write(
    memory: MemoryState,
    offset: nat,
    patch: Seq<u8>,
    read_offset: nat,
    read_size: nat,
)
    requires
        offset + patch.len() <= memory.size,
        read_offset + read_size <= memory.size,
        !memory.growable ==> memory.stored.len() == memory.size,
    ensures
        ({
            let end = offset + patch.len();
            let read = memory.written(offset, patch).region(read_offset, read_size);
            &&& read.len() == read_size
            &&& forall|i: int|
                0 <= i < read_size ==> #[trigger] read[i] == if offset <= read_offset + i < end {
                    patch[read_offset + i - offset]
                } else if memory.growable && memory.reached < end <= read_offset + i {
                    0
                } else {
                    memory.contents()[read_offset + i]
                }
        }),
{
}

/// After a fill every byte of the region is the fill value, and a read of any region shows it
/// there. At every other address a read shows what the memory held before, except where the fill
/// has cut storage that direct access left over.
pub proof fn fill_effects(
    memory: MemoryState,
    offset: nat,
    value: u8,
    len: nat,
    read_offset: nat,
    read_size: nat,
)
    requires
        offset + len <= memory.size,
        read_offset + read_size <= memory.size,
        !memory.growable ==> memory.stored.len() == memory.size,
    ensures
        ({
            let end = offset + len;
            let after = memory.written(offset, crate::bytes::repeat(value, len));
            let read = after.region(read_offset, read_size);
            &&& forall|a: int| offset <= a < end ==> #[trigger] after.contents()[a] == value
            &&& read.len() == read_size
            &&& forall|i: int|
                0 <= i < read_size ==> #[trigger] read[i] == if offset <= read_offset + i < end {
                    value
                } else if memory.growable && memory.reached < end <= read_offset + i {
                    0
                } else {
                    memory.contents()[read_offset + i]
                }
        }),
{
    read_shows_write(
        memory,
        offset,
        crate::bytes::repeat(value, len),
        read_offset,
        read_size,
    );
}

/// A copy puts the bytes that the source held before at the destination, also if the two overlap
/// or are the same, and changes no other byte in storage. It takes storage as an access to both
/// does. If it copies any byte, it counts as a write to the destination, and never as one to the
/// source.
pub proof fn copy_effects(memory: MemoryState, src: nat, dst: nat, len: nat)
    requires
        src + len <= memory.size,
        dst + len <= memory.size,
        !memory.growable ==> memory.stored.len() == memory.size,
    ensures
        ({
            let end = if src <= dst {
                dst + len
            } else {
                src + len
            };
            let after = memory.copied(src, dst, len);
            &&& after.initial == memory.initial
            &&& after.maximum == memory.maximum
            &&& after.size == memory.size
            &&& after.growable == memory.growable
            &&& after.reached == if end <= memory.reached {
                memory.reached
            } else if memory.growable {
                end
            } else {
                memory.size
            }
            &&& after.used == if len > 0 && dst + len > memory.used {
                dst + len
            } else {
                memory.used
            }
            &&& after.lowest_used == if len > 0 && dst < memory.lowest_used {
                dst
            } else {
                memory.lowest_used
            }
            &&& after.stored.len() == if !memory.growable {
                memory.stored.len()
            } else if end > memory.reached {
                end
            } else if len > 0 && dst + len > memory.stored.len() {
                dst + len
            } else {
                memory.stored.len()
            }
            &&& forall|i: int|
                0 <= i < after.stored.len() ==> #[trigger] after.stored[i] == if dst <= i < dst
                    + len {
                    memory.contents()[src + (i - dst)]
                } else if i < memory.stored.len() {
                    memory.stored[i]
                } else {
                    0
                }
        }),
{
    let patch = memory.region(src, len);
    let after = memory.copied(src, dst, len);
    let touched = memory.touched_pair(src, dst, len);
    assert(patch.len() == len);
    if len > 0 {
        let extended = crate::bytes::resized(
            touched.stored,
            crate::state::larger(touched.stored.len(), dst + len),
            0,
        );
        spliced_bytes(extended, dst as int, patch);
        assert(after.stored == crate::bytes::splice(extended, dst as int, patch));
    }
}

/// Growth adds 65536 bytes for every page and changes nothing else: not what is in storage, not
/// the limits, not what was reached or used.
pub proof fn growth_effects(memory: MemoryState, additional: nat)
    ensures
        ({
            let after = memory.grown(additional);
            &&& after.initial == memory.initial
            &&& after.maximum == memory.maximum
            &&& after.size == memory.size + 65536 * additional
            &&& after.stored == memory.stored
            &&& after.reached == memory.reached
            &&& after.used == memory.used
            &&& after.lowest_used == memory.lowest_used
            &&& after.growable == memory.growable
        }),
{
}

/// Direct access changes what is in storage and nothing else. The memory then holds those bytes,
/// and zeroes where there are none.
pub proof fn direct_access_effects(memory: MemoryState, bytes: Seq<u8>)
    ensures
        ({
            let after = memory.restored(bytes);
            &&& after.initial == memory.initial
            &&& after.maximum == memory.maximum
            &&& after.size == memory.size
            &&& after.stored == bytes
            &&& after.reached == memory.reached
            &&& after.used == memory.used
            &&& after.lowest_used == memory.lowest_used
            &&& after.growable == memory.growable
            &&& forall|a: int|
                0 <= a < memory.size ==> #[trigger] after.contents()[a] == if a < bytes.len() {
                    bytes[a]
                } else {
                    0
                }
        }),
{
}

} // verus!
