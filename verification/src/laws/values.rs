//! Which bytes and which digits stand for a number.
use crate::value::LittleEndianConvert;
use vstd::prelude::*;

verus! {

/// The first byte of an encoding is the remainder by 256; the others encode the quotient.
proof fn lemma_le_encode_step(n: nat, width: nat)
    requires
        width > 0,
    ensures
        crate::value::le_encode(n, width).len() == width,
        crate::value::le_encode(n, width)[0] == n % 256,
        forall|k: int|
            1 <= k < width ==> #[trigger] crate::value::le_encode(n, width)[k]
                == crate::value::le_encode(n / 256, (width - 1) as nat)[k - 1],
{
    crate::value::lemma_le_encode_len(n, width);
    crate::value::lemma_le_encode_len(n / 256, (width - 1) as nat);
}

/// A number below 256 is its only byte.
proof fn lemma_sum_1(n: nat)
    requires
        n < 0x100,
    ensures
        crate::value::le_encode(n, 1).len() == 1,
        crate::value::le_encode(n, 1)[0] == n,
{
    lemma_le_encode_step(n, 1);
}

/// Two bytes, each weighted by its place, make up the number.
proof fn lemma_sum_2(n: nat)
    requires
        n < 0x1_0000,
    ensures
        ({
            let b = crate::value::le_encode(n, 2);
            b.len() == 2 && b[0] + 0x100 * b[1] == n
        }),
{
    lemma_le_encode_step(n, 2);
    lemma_sum_1(n / 256);
}

/// Four bytes, each weighted by its place, make up the number.
proof fn lemma_sum_4(n: nat)
    requires
        n < 0x1_0000_0000,
    ensures
        ({
            let b = crate::value::le_encode(n, 4);
            b.len() == 4 && b[0] + 0x100 * b[1] + 0x1_0000 * b[2] + 0x100_0000 * b[3] == n
        }),
{
    lemma_le_encode_step(n, 4);
    lemma_le_encode_step(n / 256, 3);
    lemma_sum_2(n / 256 / 256);
    let b = crate::value::le_encode(n, 4);
    let high = crate::value::le_encode(n / 256 / 256, 2);
    assert(b[1] == (n / 256) % 256);
    assert(b[2] == high[0] && b[3] == high[1]);
}

/// Eight bytes, each weighted by its place, make up the number.
proof fn lemma_sum_8(n: nat)
    requires
        n < 0x1_0000_0000_0000_0000,
    ensures
        ({
            let b = crate::value::le_encode(n, 8);
            b.len() == 8 && b[0] + 0x100 * b[1] + 0x1_0000 * b[2] + 0x100_0000 * b[3]
                + 0x1_0000_0000 * b[4] + 0x100_0000_0000 * b[5] + 0x1_0000_0000_0000 * b[6]
                + 0x100_0000_0000_0000 * b[7] == n
        }),
{
    let n1 = n / 256;
    let n2 = n1 / 256;
    let n3 = n2 / 256;
    let n4 = n3 / 256;
    lemma_le_encode_step(n, 8);
    lemma_le_encode_step(n1, 7);
    lemma_le_encode_step(n2, 6);
    lemma_le_encode_step(n3, 5);
    lemma_sum_4(n4);
    let b = crate::value::le_encode(n, 8);
    let high = crate::value::le_encode(n4, 4);
    assert(b[1] == n1 % 256);
    assert(b[2] == n2 % 256);
    assert(b[3] == n3 % 256);
    assert(b[4] == high[0] && b[5] == high[1] && b[6] == high[2] && b[7] == high[3]);
}

/// A value of one byte is that byte. A negative one is its byte less 256.
pub proof fn one_byte_values(unsigned: u8, signed: i8)
    ensures
        unsigned.le_bytes().len() == 1,
        unsigned.le_bytes()[0] == unsigned,
        signed.le_bytes().len() == 1,
        signed.le_bytes()[0] == if signed < 0 {
            signed + 0x100
        } else {
            signed as int
        },
{
    reveal_with_fuel(crate::value::span, 2);
    lemma_sum_1(unsigned as nat);
    lemma_sum_1(crate::value::twos_complement(signed as int, 1));
}

/// The bytes of a value of two bytes, the lowest first and each weighted by its place, make up the
/// value. If it is negative, they make up the value plus 2<sup>16</sup>.
pub proof fn two_byte_values(unsigned: u16, signed: i16)
    ensures
        ({
            let b = unsigned.le_bytes();
            b.len() == 2 && b[0] + 0x100 * b[1] == unsigned
        }),
        ({
            let b = signed.le_bytes();
            b.len() == 2 && b[0] + 0x100 * b[1] == if signed < 0 {
                signed + 0x1_0000
            } else {
                signed as int
            }
        }),
{
    reveal_with_fuel(crate::value::span, 3);
    lemma_sum_2(unsigned as nat);
    lemma_sum_2(crate::value::twos_complement(signed as int, 2));
}

/// The bytes of a value of four bytes, the lowest first and each weighted by its place, make up
/// the value. If it is negative, they make up the value plus 2<sup>32</sup>.
pub proof fn four_byte_values(unsigned: u32, signed: i32)
    ensures
        ({
            let b = unsigned.le_bytes();
            b.len() == 4 && b[0] + 0x100 * b[1] + 0x1_0000 * b[2] + 0x100_0000 * b[3] == unsigned
        }),
        ({
            let b = signed.le_bytes();
            b.len() == 4 && b[0] + 0x100 * b[1] + 0x1_0000 * b[2] + 0x100_0000 * b[3]
                == if signed < 0 {
                signed + 0x1_0000_0000
            } else {
                signed as int
            }
        }),
{
    reveal_with_fuel(crate::value::span, 5);
    lemma_sum_4(unsigned as nat);
    lemma_sum_4(crate::value::twos_complement(signed as int, 4));
}

/// The bytes of a value of eight bytes, the lowest first and each weighted by its place, make up
/// the value. If it is negative, they make up the value plus 2<sup>64</sup>.
pub proof fn eight_byte_values(unsigned: u64, signed: i64)
    ensures
        ({
            let b = unsigned.le_bytes();
            b.len() == 8 && b[0] + 0x100 * b[1] + 0x1_0000 * b[2] + 0x100_0000 * b[3]
                + 0x1_0000_0000 * b[4] + 0x100_0000_0000 * b[5] + 0x1_0000_0000_0000 * b[6]
                + 0x100_0000_0000_0000 * b[7] == unsigned
        }),
        ({
            let b = signed.le_bytes();
            b.len() == 8 && b[0] + 0x100 * b[1] + 0x1_0000 * b[2] + 0x100_0000 * b[3]
                + 0x1_0000_0000 * b[4] + 0x100_0000_0000 * b[5] + 0x1_0000_0000_0000 * b[6]
                + 0x100_0000_0000_0000 * b[7] == if signed < 0 {
                signed + 0x1_0000_0000_0000_0000
            } else {
                signed as int
            }
        }),
{
    reveal_with_fuel(crate::value::span, 9);
    lemma_sum_8(unsigned as nat);
    lemma_sum_8(crate::value::twos_complement(signed as int, 8));
}

/// A signed and an unsigned value of four bytes have the same bytes if and only if they are equal
/// or, where the signed one is negative, 2<sup>32</sup> apart.
pub proof fn four_byte_values_share_bytes(unsigned: u32, signed: i32)
    ensures
        signed.le_bytes() == unsigned.le_bytes() <==> unsigned == if signed < 0 {
            signed + 0x1_0000_0000
        } else {
            signed as int
        },
{
    reveal_with_fuel(crate::value::span, 5);
    four_byte_values(unsigned, signed);
}

/// A signed and an unsigned value of eight bytes have the same bytes if and only if they are equal
/// or, where the signed one is negative, 2<sup>64</sup> apart.
pub proof fn eight_byte_values_share_bytes(unsigned: u64, signed: i64)
    ensures
        signed.le_bytes() == unsigned.le_bytes() <==> unsigned == if signed < 0 {
            signed + 0x1_0000_0000_0000_0000
        } else {
            signed as int
        },
{
    reveal_with_fuel(crate::value::span, 9);
    eight_byte_values(unsigned, signed);
}

/// A numeral ends in the digit for the remainder by ten, and what stands before it is the numeral
/// of the quotient, or nothing if the quotient is zero.
pub proof fn numerals_are_decimal(n: nat)
    ensures
        ({
            let numeral = crate::text::decimal(n);
            &&& numeral.len() > 0
            &&& numeral.last() as int == '0' as int + n % 10
            &&& n < 10 ==> numeral.len() == 1
            &&& n >= 10 ==> numeral.drop_last() == crate::text::decimal(n / 10)
        }),
{
    if n >= 10 {
        assert(crate::text::decimal(n).drop_last() =~= crate::text::decimal(n / 10));
    }
}

/// Different numbers have different numerals.
pub proof fn numerals_differ(m: nat, n: nat)
    requires
        crate::text::decimal(m) == crate::text::decimal(n),
    ensures
        m == n,
    decreases m,
{
    numerals_are_decimal(m);
    numerals_are_decimal(n);
    if m >= 10 && n >= 10 {
        numerals_differ(m / 10, n / 10);
    } else if m >= 10 {
        numerals_are_decimal(m / 10);
        assert(crate::text::decimal(m).len() == crate::text::decimal(m / 10).len() + 1);
    } else if n >= 10 {
        numerals_are_decimal(n / 10);
        assert(crate::text::decimal(n).len() == crate::text::decimal(n / 10).len() + 1);
    }
}

} // verus!
