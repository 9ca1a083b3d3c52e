//! The storage behind a memory.
use vstd::prelude::*;

verus! {

/// A run of bytes that can be asked to change its length.
pub trait Allocator {
    /// The bytes.
    spec fn bytes(&self) -> Seq<u8>;

    /// Whether [`Allocator::resize`] changes the length.
    spec fn growable(&self) -> bool;

    /// The bytes, to read.
    fn as_slice(&self) -> (slice: &[u8])
        ensures
            slice@ == self.bytes(),
    ;

    /// The bytes, to read and write.
    fn as_mut_slice(&mut self) -> (slice: &mut [u8])
        ensures
            slice@ == old(self).bytes(),
            final(self).bytes() == final(slice)@,
            final(self).growable() == old(self).growable(),
    ;

    /// Changes the length to `size`, with bytes `value` where there were none, if the storage is
    /// growable. Storage of a fixed length stays as it is.
    fn resize(&mut self, size: usize, value: u8)
        ensures
            final(self).growable() == old(self).growable(),
            final(self).bytes() == if old(self).growable() {
                crate::bytes::resized(old(self).bytes(), size as nat, value)
            } else {
                old(self).bytes()
            },
    ;
}

impl Allocator for Vec<u8> {
    open spec fn bytes(&self) -> Seq<u8> {
        self@
    }

    open spec fn growable(&self) -> bool {
        true
    }

    fn as_slice(&self) -> (slice: &[u8]) {
        Vec::as_slice(self)
    }

    fn as_mut_slice(&mut self) -> (slice: &mut [u8]) {
        Vec::as_mut_slice(self)
    }

    fn resize(&mut self, size: usize, value: u8) {
        let ghost before = self@;
        Vec::resize(self, size, value);
        proof {
            if size > before.len() {
                assert forall|i: int| 0 <= i < before.len() implies self@[i] == before[i] by {
                    assert(self@[i] == self@.subrange(0, before.len() as int)[i]);
                }
            }
            assert(self@ =~= crate::bytes::resized(before, size as nat, value));
        }
    }
}

impl Allocator for &'static mut [u8] {
    open spec fn bytes(&self) -> Seq<u8> {
        (*self)@
    }

    open spec fn growable(&self) -> bool {
        false
    }

    fn as_slice(&self) -> (slice: &[u8]) {
        &**self
    }

    fn as_mut_slice(&mut self) -> (slice: &mut [u8])
        ensures
            final(*final(self))@ == final(*old(self))@,
    {
        &mut **self
    }

    fn resize(&mut self, _size: usize, _value: u8)
        ensures
            final(*final(self))@ == final(*old(self))@,
    {
    }
}

/// The storage that a memory can have: bytes of its own, or bytes that were given to it.
pub enum Buffer {
    /// A vector that grows as the memory is used.
    Growable(Vec<u8>),
    /// A slice that stays as long as it is.
    Fixed(&'static mut [u8]),
}

impl Allocator for Buffer {
    open spec fn bytes(&self) -> Seq<u8> {
        match self {
            Buffer::Growable(vector) => vector.bytes(),
            Buffer::Fixed(slice) => slice.bytes(),
        }
    }

    open spec fn growable(&self) -> bool {
        self is Growable
    }

    fn as_slice(&self) -> (slice: &[u8]) {
        match self {
            Buffer::Growable(vector) => Allocator::as_slice(vector),
            Buffer::Fixed(slice) => Allocator::as_slice(slice),
        }
    }

    fn as_mut_slice(&mut self) -> (slice: &mut [u8])
        ensures
            *old(self) matches Buffer::Fixed(given) ==> *final(self) matches Buffer::Fixed(kept)
                && final(kept)@ == final(given)@,
    {
        match self {
            Buffer::Growable(vector) => Allocator::as_mut_slice(vector),
            Buffer::Fixed(slice) => Allocator::as_mut_slice(slice),
        }
    }

    fn resize(&mut self, size: usize, value: u8)
        ensures
            *old(self) matches Buffer::Fixed(given) ==> *final(self) matches Buffer::Fixed(kept)
                && final(kept)@ == final(given)@,
    {
        match self {
            Buffer::Growable(vector) => Allocator::resize(vector, size, value),
            Buffer::Fixed(slice) => Allocator::resize(slice, size, value),
        }
    }
}

} // verus!
