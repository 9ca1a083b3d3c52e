//! Values that a memory can hold, and their little-endian bytes.
use core::mem::size_of;
use vstd::prelude::*;

verus! {

/// Why bytes could not be turned into a value.
#[derive(Clone, Copy, Debug, PartialEq, Eq, Structural)]
pub enum ValueError {
    /// There are fewer bytes than the value takes.
    InvalidLittleEndianBuffer,
}

/// The number of different values that `width` bytes can hold.
pub open spec fn span(width: nat) -> nat
    decreases width,
{
    if width == 0 {
        1
    } else {
        256 * span((width - 1) as nat)
    }
}

/// The `width` low bytes of `n`, the lowest first.
pub open spec fn le_encode(n: nat, width: nat) -> Seq<u8>
    decreases width,
{
    if width == 0 {
        Seq::empty()
    } else {
        seq![(n % 256) as u8] + le_encode(n / 256, (width - 1) as nat)
    }
}

/// The natural number that has the same `width` bytes as `n`.
pub open spec fn twos_complement(n: int, width: nat) -> nat {
    if n < 0 {
        (n + span(width)) as nat
    } else {
        n as nat
    }
}

/// An encoding has the width that was asked for.
pub proof fn lemma_le_encode_len(n: nat, width: nat)
    ensures
        le_encode(n, width).len() == width,
    decreases width,
{
    if width > 0 {
        lemma_le_encode_len(n / 256, (width - 1) as nat);
    }
}

/// Numbers that fit in `width` bytes are told apart by their encodings.
pub proof fn lemma_le_encode_injective(a: nat, b: nat, width: nat)
    requires
        a < span(width),
        b < span(width),
        le_encode(a, width) == le_encode(b, width),
    ensures
        a == b,
    decreases width,
{
    if width > 0 {
        let rest = (width - 1) as nat;
        let ea = le_encode(a, width);
        let eb = le_encode(b, width);
        assert(ea[0] == (a % 256) as u8 && eb[0] == (b % 256) as u8);
        assert(ea.subrange(1, ea.len() as int) =~= le_encode(a / 256, rest));
        assert(eb.subrange(1, eb.len() as int) =~= le_encode(b / 256, rest));
        lemma_le_encode_injective(a / 256, b / 256, rest);
    }
}

/// The numbers of values of the widths in use.
proof fn lemma_spans()
    ensures
        span(0) == 1,
        span(1) == 0x100,
        span(2) == 0x1_0000,
        span(3) == 0x100_0000,
        span(4) == 0x1_0000_0000,
        span(5) == 0x100_0000_0000,
        span(6) == 0x1_0000_0000_0000,
        span(7) == 0x100_0000_0000_0000,
        span(8) == 0x1_0000_0000_0000_0000,
{
    reveal_with_fuel(span, 9);
}

/// Writes the low bytes of `value` into `buffer`, the lowest first.
fn write_le(value: u64, buffer: &mut [u8])
    ensures
        final(buffer)@ == le_encode(value as nat, old(buffer)@.len()),
{
    let width: usize = buffer.len();
    let mut rest: u64 = value;
    let mut i: usize = 0;
    while i < width
        invariant
            i <= width,
            width == buffer@.len(),
            width == old(buffer)@.len(),
            le_encode(value as nat, width as nat) == buffer@.subrange(0, i as int) + le_encode(
                rest as nat,
                (width - i) as nat,
            ),
        decreases width - i,
    {
        let ghost before = buffer@;
        buffer[i] = (rest % 256) as u8;
        proof {
            assert(buffer@.subrange(0, i + 1) =~= before.subrange(0, i as int).push(
                (rest % 256) as u8,
            ));
            assert(before.subrange(0, i as int) + le_encode(rest as nat, (width - i) as nat)
                =~= buffer@.subrange(0, i + 1) + le_encode(
                (rest / 256) as nat,
                (width - i - 1) as nat,
            ));
        }
        rest = rest / 256;
        i = i + 1;
    }
    assert(buffer@.subrange(0, width as int) =~= buffer@);
}

/// Reads the first `width` bytes of `buffer` as a number, the lowest first.
fn read_le(buffer: &[u8], width: usize) -> (value: u64)
    requires
        width <= 8,
        width <= buffer@.len(),
    ensures
        value < span(width as nat),
        le_encode(value as nat, width as nat) == buffer@.subrange(0, width as int),
{
    let mut value: u64 = 0;
    let mut i: usize = width;
    proof {
        lemma_spans();
    }
    while i > 0
        invariant
            i <= width <= 8,
            width <= buffer@.len(),
            value < span((width - i) as nat),
            le_encode(value as nat, (width - i) as nat) == buffer@.subrange(i as int, width as int),
        decreases i,
    {
        proof {
            lemma_spans();
        }
        i = i - 1;
        let low: u8 = buffer[i];
        let ghost high = value;
        value = value * 256 + low as u64;
        proof {
            assert(value as nat % 256 == low && value as nat / 256 == high);
            assert(buffer@.subrange(i as int, width as int) =~= seq![low] + buffer@.subrange(
                i + 1,
                width as int,
            ));
        }
    }
    value
}

/// A value with a little-endian form that takes as many bytes as the value does.
pub trait LittleEndianConvert: Sized {
    /// The bytes of the value, the lowest first.
    spec fn le_bytes(self) -> Seq<u8>;

    /// The little-endian form is as long as the value.
    proof fn lemma_le_bytes_len(self)
        ensures
            self.le_bytes().len() == vstd::layout::size_of::<Self>(),
    ;

    /// The little-endian form determines the value.
    proof fn lemma_le_bytes_injective(a: Self, b: Self)
        requires
            a.le_bytes() == b.le_bytes(),
        ensures
            a == b,
    ;

    /// Writes the value's little-endian form into `buffer`.
    fn into_little_endian(self, buffer: &mut [u8])
        requires
            old(buffer)@.len() == vstd::layout::size_of::<Self>(),
        ensures
            final(buffer)@ == self.le_bytes(),
    ;

    /// Reads a value from its little-endian form at the start of `buffer`.
    ///
    /// # Errors
    ///
    /// Returns `Err` if `buffer` is shorter than the value.
    fn from_little_endian(buffer: &[u8]) -> (result: Result<Self, ValueError>)
        ensures
            result is Ok <==> buffer@.len() >= vstd::layout::size_of::<Self>(),
            result matches Ok(value) ==> value.le_bytes() == buffer@.subrange(
                0,
                vstd::layout::size_of::<Self>() as int,
            ),
    ;
}

impl LittleEndianConvert for u8 {
    open spec fn le_bytes(self) -> Seq<u8> {
        le_encode(self as nat, 1)
    }

    proof fn lemma_le_bytes_len(self) {
        broadcast use vstd::layout::layout_of_primitives;

        lemma_le_encode_len(self as nat, 1);
    }

    proof fn lemma_le_bytes_injective(a: Self, b: Self) {
        lemma_spans();
        lemma_le_encode_injective(a as nat, b as nat, 1);
    }

    fn into_little_endian(self, buffer: &mut [u8]) {
        broadcast use vstd::layout::layout_of_primitives;

        write_le(self as u64, buffer)
    }

    fn from_little_endian(buffer: &[u8]) -> (result: Result<Self, ValueError>) {
        broadcast use vstd::layout::layout_of_primitives;

        if buffer.len() < size_of::<u8>() {
            return Err(ValueError::InvalidLittleEndianBuffer);
        }
        proof {
            lemma_spans();
        }
        Ok(read_le(buffer, size_of::<u8>()) as u8)
    }
}

impl LittleEndianConvert for i8 {
    open spec fn le_bytes(self) -> Seq<u8> {
        le_encode(twos_complement(self as int, 1), 1)
    }

    proof fn lemma_le_bytes_len(self) {
        broadcast use vstd::layout::layout_of_primitives;

        lemma_le_encode_len(twos_complement(self as int, 1), 1);
    }

    proof fn lemma_le_bytes_injective(a: Self, b: Self) {
        lemma_spans();
        lemma_le_encode_injective(twos_complement(a as int, 1), twos_complement(b as int, 1), 1);
    }

    fn into_little_endian(self, buffer: &mut [u8]) {
        broadcast use vstd::layout::layout_of_primitives;

        proof {
            lemma_spans();
            assert(self as u8 == if self < 0 {
                self + 0x100
            } else {
                self as int
            }) by (bit_vector);
        }
        write_le(self as u8 as u64, buffer)
    }

    fn from_little_endian(buffer: &[u8]) -> (result: Result<Self, ValueError>) {
        broadcast use vstd::layout::layout_of_primitives;

        if buffer.len() < size_of::<i8>() {
            return Err(ValueError::InvalidLittleEndianBuffer);
        }
        proof {
            lemma_spans();
        }
        let bits: u8 = read_le(buffer, size_of::<i8>()) as u8;
        proof {
            assert(bits as i8 == if bits >= 0x80 {
                bits - 0x100
            } else {
                bits as int
            }) by (bit_vector);
        }
        Ok(bits as i8)
    }
}

impl LittleEndianConvert for u16 {
    open spec fn le_bytes(self) -> Seq<u8> {
        le_encode(self as nat, 2)
    }

    proof fn lemma_le_bytes_len(self) {
        broadcast use vstd::layout::layout_of_primitives;

        lemma_le_encode_len(self as nat, 2);
    }

    proof fn lemma_le_bytes_injective(a: Self, b: Self) {
        lemma_spans();
        lemma_le_encode_injective(a as nat, b as nat, 2);
    }

    fn into_little_endian(self, buffer: &mut [u8]) {
        broadcast use vstd::layout::layout_of_primitives;

        write_le(self as u64, buffer)
    }

    fn from_little_endian(buffer: &[u8]) -> (result: Result<Self, ValueError>) {
        broadcast use vstd::layout::layout_of_primitives;

        if buffer.len() < size_of::<u16>() {
            return Err(ValueError::InvalidLittleEndianBuffer);
        }
        proof {
            lemma_spans();
        }
        Ok(read_le(buffer, size_of::<u16>()) as u16)
    }
}

impl LittleEndianConvert for i16 {
    open spec fn le_bytes(self) -> Seq<u8> {
        le_encode(twos_complement(self as int, 2), 2)
    }

    proof fn lemma_le_bytes_len(self) {
        broadcast use vstd::layout::layout_of_primitives;

        lemma_le_encode_len(twos_complement(self as int, 2), 2);
    }

    proof fn lemma_le_bytes_injective(a: Self, b: Self) {
        lemma_spans();
        lemma_le_encode_injective(twos_complement(a as int, 2), twos_complement(b as int, 2), 2);
    }

    fn into_little_endian(self, buffer: &mut [u8]) {
        broadcast use vstd::layout::layout_of_primitives;

        proof {
            lemma_spans();
            assert(self as u16 == if self < 0 {
                self + 0x1_0000
            } else {
                self as int
            }) by (bit_vector);
        }
        write_le(self as u16 as u64, buffer)
    }

    fn from_little_endian(buffer: &[u8]) -> (result: Result<Self, ValueError>) {
        broadcast use vstd::layout::layout_of_primitives;

        if buffer.len() < size_of::<i16>() {
            return Err(ValueError::InvalidLittleEndianBuffer);
        }
        proof {
            lemma_spans();
        }
        let bits: u16 = read_le(buffer, size_of::<i16>()) as u16;
        proof {
            assert(bits as i16 == if bits >= 0x8000 {
                bits - 0x1_0000
            } else {
                bits as int
            }) by (bit_vector);
        }
        Ok(bits as i16)
    }
}

impl LittleEndianConvert for u32 {
    open spec fn le_bytes(self) -> Seq<u8> {
        le_encode(self as nat, 4)
    }

    proof fn lemma_le_bytes_len(self) {
        broadcast use vstd::layout::layout_of_primitives;

        lemma_le_encode_len(self as nat, 4);
    }

    proof fn lemma_le_bytes_injective(a: Self, b: Self) {
        lemma_spans();
        lemma_le_encode_injective(a as nat, b as nat, 4);
    }

    fn into_little_endian(self, buffer: &mut [u8]) {
        broadcast use vstd::layout::layout_of_primitives;

        write_le(self as u64, buffer)
    }

    fn from_little_endian(buffer: &[u8]) -> (result: Result<Self, ValueError>) {
        broadcast use vstd::layout::layout_of_primitives;

        if buffer.len() < size_of::<u32>() {
            return Err(ValueError::InvalidLittleEndianBuffer);
        }
        proof {
            lemma_spans();
        }
        Ok(read_le(buffer, size_of::<u32>()) as u32)
    }
}

impl LittleEndianConvert for i32 {
    open spec fn le_bytes(self) -> Seq<u8> {
        le_encode(twos_complement(self as int, 4), 4)
    }

    proof fn lemma_le_bytes_len(self) {
        broadcast use vstd::layout::layout_of_primitives;

        lemma_le_encode_len(twos_complement(self as int, 4), 4);
    }

    proof fn lemma_le_bytes_injective(a: Self, b: Self) {
        lemma_spans();
        lemma_le_encode_injective(twos_complement(a as int, 4), twos_complement(b as int, 4), 4);
    }

    fn into_little_endian(self, buffer: &mut [u8]) {
        broadcast use vstd::layout::layout_of_primitives;

        proof {
            lemma_spans();
            assert(self as u32 == if self < 0 {
                self + 0x1_0000_0000
            } else {
                self as int
            }) by (bit_vector);
        }
        write_le(self as u32 as u64, buffer)
    }

    fn from_little_endian(buffer: &[u8]) -> (result: Result<Self, ValueError>) {
        broadcast use vstd::layout::layout_of_primitives;

        if buffer.len() < size_of::<i32>() {
            return Err(ValueError::InvalidLittleEndianBuffer);
        }
        proof {
            lemma_spans();
        }
        let bits: u32 = read_le(buffer, size_of::<i32>()) as u32;
        proof {
            assert(bits as i32 == if bits >= 0x8000_0000 {
                bits - 0x1_0000_0000
            } else {
                bits as int
            }) by (bit_vector);
        }
        Ok(bits as i32)
    }
}

impl LittleEndianConvert for u64 {
    open spec fn le_bytes(self) -> Seq<u8> {
        le_encode(self as nat, 8)
    }

    proof fn lemma_le_bytes_len(self) {
        broadcast use vstd::layout::layout_of_primitives;

        lemma_le_encode_len(self as nat, 8);
    }

    proof fn lemma_le_bytes_injective(a: Self, b: Self) {
        lemma_spans();
        lemma_le_encode_injective(a as nat, b as nat, 8);
    }

    fn into_little_endian(self, buffer: &mut [u8]) {
        broadcast use vstd::layout::layout_of_primitives;

        write_le(self, buffer)
    }

    fn from_little_endian(buffer: &[u8]) -> (result: Result<Self, ValueError>) {
        broadcast use vstd::layout::layout_of_primitives;

        if buffer.len() < size_of::<u64>() {
            return Err(ValueError::InvalidLittleEndianBuffer);
        }
        proof {
            lemma_spans();
        }
        Ok(read_le(buffer, size_of::<u64>()))
    }
}

impl LittleEndianConvert for i64 {
    open spec fn le_bytes(self) -> Seq<u8> {
        le_encode(twos_complement(self as int, 8), 8)
    }

    proof fn lemma_le_bytes_len(self) {
        broadcast use vstd::layout::layout_of_primitives;

        lemma_le_encode_len(twos_complement(self as int, 8), 8);
    }

    proof fn lemma_le_bytes_injective(a: Self, b: Self) {
        lemma_spans();
        lemma_le_encode_injective(twos_complement(a as int, 8), twos_complement(b as int, 8), 8);
    }

    fn into_little_endian(self, buffer: &mut [u8]) {
        broadcast use vstd::layout::layout_of_primitives;

        proof {
            lemma_spans();
            assert(self as u64 == if self < 0 {
                self + 0x1_0000_0000_0000_0000
            } else {
                self as int
            }) by (bit_vector);
        }
        write_le(self as u64, buffer)
    }

    fn from_little_endian(buffer: &[u8]) -> (result: Result<Self, ValueError>) {
        broadcast use vstd::layout::layout_of_primitives;

        if buffer.len() < size_of::<i64>() {
            return Err(ValueError::InvalidLittleEndianBuffer);
        }
        proof {
            lemma_spans();
        }
        let bits: u64 = read_le(buffer, size_of::<i64>());
        proof {
            assert(bits as i64 == if bits >= 0x8000_0000_0000_0000 {
                bits - 0x1_0000_0000_0000_0000
            } else {
                bits as int
            }) by (bit_vector);
        }
        Ok(bits as i64)
    }
}

} // verus!
