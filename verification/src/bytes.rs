//! Bulk operations on slices of bytes.
use vstd::prelude::*;

verus! {

/// `base` with the bytes from `offset` on replaced by `patch`.
pub open spec fn splice(base: Seq<u8>, offset: int, patch: Seq<u8>) -> Seq<u8> {
    base.subrange(0, offset) + patch + base.subrange(offset + patch.len(), base.len() as int)
}

/// `count` bytes that are all `value`.
pub open spec fn repeat(value: u8, count: nat) -> Seq<u8> {
    Seq::new(count, |i: int| value)
}

/// `base` cut or extended by bytes `value` to the length `size`.
pub open spec fn resized(base: Seq<u8>, size: nat, value: u8) -> Seq<u8> {
    if size <= base.len() {
        base.subrange(0, size as int)
    } else {
        base + repeat(value, (size - base.len()) as nat)
    }
}

/// Moving the first `present` bytes of a source range and zeroing the rest of the destination is
/// moving the whole range, where `base` ends after those bytes and zeroes follow it.
pub(crate) proof fn lemma_padded_move(
    base: Seq<u8>,
    extent: nat,
    total: nat,
    source: int,
    dest: int,
    len: nat,
    present: nat,
)
    requires
        0 <= source,
        source + len <= total,
        0 <= dest,
        dest + len <= extent,
        base.len() <= extent,
        present <= len,
        present == 0 || source + present <= base.len(),
        present < len ==> base.len() <= source + present,
    ensures
        ({
            let extended = resized(base, extent, 0);
            let moved = if present > 0 {
                splice(extended, dest, extended.subrange(source, source + present))
            } else {
                extended
            };
            splice(moved, dest + present, repeat(0, (len - present) as nat)) == splice(
                extended,
                dest,
                resized(base, total, 0).subrange(source, source + len),
            )
        }),
{
    let extended = resized(base, extent, 0);
    let moved = if present > 0 {
        splice(extended, dest, extended.subrange(source, source + present))
    } else {
        extended
    };
    let whole = resized(base, total, 0).subrange(source, source + len);
    let left = splice(moved, dest + present, repeat(0, (len - present) as nat));
    let right = splice(extended, dest, whole);
    assert forall|i: int| 0 <= i < extent implies left[i] == right[i] by {
        if dest <= i < dest + present {
            assert(left[i] == moved[i]);
            assert(moved[i] == extended[source + (i - dest)]);
            assert(right[i] == whole[i - dest]);
        } else if dest + present <= i < dest + len {
            assert(left[i] == 0);
            assert(right[i] == whole[i - dest]);
        } else {
            assert(moved[i] == extended[i]);
        }
    }
    assert(left =~= right);
}

/// Writes `source` into `target` from `offset` on.
pub(crate) fn overwrite(target: &mut [u8], offset: usize, source: &[u8])
    requires
        offset + source@.len() <= old(target)@.len(),
    ensures
        final(target)@ == splice(old(target)@, offset as int, source@),
{
    let len: usize = source.len();
    let bound: usize = target.len();
    let mut i: usize = 0;
    while i < len
        invariant
            i <= len,
            len == source@.len(),
            offset + len <= bound,
            bound == target@.len(),
            target@ == splice(old(target)@, offset as int, source@.subrange(0, i as int)),
            bound == old(target)@.len(),
        decreases len - i,
    {
        target[offset + i] = source[i];
        i = i + 1;
    }
    assert(source@.subrange(0, len as int) =~= source@);
}

/// Fills `target` with the bytes of `source` from `offset` on, and with zeroes where `source` has
/// no bytes.
pub(crate) fn read_padded(source: &[u8], offset: usize, target: &mut [u8])
    requires
        offset + old(target)@.len() <= usize::MAX,
    ensures
        final(target)@.len() == old(target)@.len(),
        forall|i: int|
            0 <= i < old(target)@.len() ==> #[trigger] final(target)@[i] == if offset + i
                < source@.len() {
                source@[offset + i]
            } else {
                0
            },
{
    let len: usize = target.len();
    let mut i: usize = 0;
    while i < len
        invariant
            i <= len,
            len == target@.len(),
            len == old(target)@.len(),
            offset + len <= usize::MAX,
            forall|j: int|
                0 <= j < i ==> #[trigger] target@[j] == if offset + j < source@.len() {
                    source@[offset + j]
                } else {
                    0
                },
        decreases len - i,
    {
        target[i] = if offset + i < source.len() {
            source[offset + i]
        } else {
            0
        };
        i = i + 1;
    }
}

/// Writes `len` bytes `value` into `target` from `offset` on.
pub(crate) fn fill(target: &mut [u8], offset: usize, value: u8, len: usize)
    requires
        offset + len <= old(target)@.len(),
    ensures
        final(target)@ == splice(old(target)@, offset as int, repeat(value, len as nat)),
{
    let bound: usize = target.len();
    let mut i: usize = 0;
    while i < len
        invariant
            i <= len,
            offset + len <= bound,
            bound == target@.len(),
            target@ == splice(old(target)@, offset as int, repeat(value, i as nat)),
            bound == old(target)@.len(),
        decreases len - i,
    {
        target[offset + i] = value;
        i = i + 1;
    }
}

/// Copies the `len` bytes from `source` on to the bytes from `dest` on. The two ranges may
/// overlap: what is written is what stood in the source range before the call.
pub(crate) fn move_within(buffer: &mut [u8], source: usize, dest: usize, len: usize)
    requires
        source + len <= old(buffer)@.len(),
        dest + len <= old(buffer)@.len(),
    ensures
        final(buffer)@ == splice(
            old(buffer)@,
            dest as int,
            old(buffer)@.subrange(source as int, source + len),
        ),
{
    let bound: usize = buffer.len();
    if dest <= source {
        let mut i: usize = 0;
        while i < len
            invariant
                i <= len,
                dest <= source,
                source + len <= bound,
                dest + len <= bound,
                bound == buffer@.len(),
                bound == old(buffer)@.len(),
                buffer@ == splice(
                    old(buffer)@,
                    dest as int,
                    old(buffer)@.subrange(source as int, source + i),
                ),
            decreases len - i,
        {
            buffer[dest + i] = buffer[source + i];
            i = i + 1;
        }
    } else {
        let mut i: usize = len;
        while i > 0
            invariant
                i <= len,
                source < dest,
                source + len <= bound,
                dest + len <= bound,
                bound == buffer@.len(),
                bound == old(buffer)@.len(),
                buffer@ == splice(
                    old(buffer)@,
                    dest + i,
                    old(buffer)@.subrange(source + i, source + len),
                ),
            decreases i,
        {
            i = i - 1;
            buffer[dest + i] = buffer[source + i];
        }
    }
}

} // verus!
