//! Bounds on masked and shifted machine words, array updates in
//! specifications, and byte order.

use vstd::array::{spec_array_fill_for_copy_type, spec_array_update};
use vstd::prelude::*;

verus! {

/// The array `a` with element `i` replaced by `v`.
#[verifier::inline]
pub open spec fn put<T, const N: usize>(a: [T; N], i: int, v: T) -> [T; N] {
    spec_array_update(a, i, v)
}

/// The array whose elements are all `v`.
#[verifier::inline]
pub open spec fn filled<T: Copy, const N: usize>(v: T) -> [T; N] {
    spec_array_fill_for_copy_type::<T, N>(v)
}

proof fn lemma_and_le(a: u64, b: u64)
    ensures
        (a & b) <= b,
        (a & b) <= a,
{
    assert((a & b) <= b && (a & b) <= a) by (bit_vector);
}

pub broadcast proof fn and_le_u8(a: u8, b: u8)
    ensures
        #[trigger] (a & b) <= b,
        (a & b) <= a,
{
    lemma_and_le(a as u64, b as u64);
}

pub broadcast proof fn and_le_u16(a: u16, b: u16)
    ensures
        #[trigger] (a & b) <= b,
        (a & b) <= a,
{
    lemma_and_le(a as u64, b as u64);
}

pub broadcast proof fn and_le_u32(a: u32, b: u32)
    ensures
        #[trigger] (a & b) <= b,
        (a & b) <= a,
{
    lemma_and_le(a as u64, b as u64);
}

pub broadcast proof fn and_le_usize(a: usize, b: usize)
    ensures
        #[trigger] (a & b) <= b,
        (a & b) <= a,
{
    lemma_and_le(a as u64, b as u64);
}

pub broadcast group group_masks {
    and_le_u8,
    and_le_u16,
    and_le_u32,
    and_le_usize,
}

/// What is left of a byte after a right shift.
pub proof fn lemma_shr_u8()
    by (bit_vector)
    ensures
        forall|x: u8| #[trigger] (x >> 7u8) <= 1,
        forall|x: u8| #[trigger] (x >> 6u8) <= 3,
        forall|x: u8| #[trigger] (x >> 5u8) <= 7,
        forall|x: u8| #[trigger] (x >> 4u8) <= 15,
        forall|x: u8| #[trigger] (x >> 1u8) <= 127,
{
}

/// Two to the power `i`, for the bits of a byte.
pub open spec fn weight(i: int) -> int {
    if i == 0 {
        1
    } else if i == 1 {
        2
    } else if i == 2 {
        4
    } else if i == 3 {
        8
    } else if i == 4 {
        16
    } else if i == 5 {
        32
    } else if i == 6 {
        64
    } else {
        128
    }
}

/// Bit `i` of a byte.
#[verifier::opaque]
pub open spec fn bit8(v: u8, i: int) -> bool {
    v as int / weight(i) % 2 == 1
}

/// The bitwise operations on bytes at bit `i`, in terms of shifts, and the
/// shift as a division.
proof fn lemma_shifted_bit(x: u8, y: u8, n: u8, i: u8)
    by (bit_vector)
    requires
        n < 8,
        i < 8,
    ensures
        (((x & y) >> i) & 1 == 1) == ((x >> i) & 1 == 1 && (y >> i) & 1 == 1),
        (((x | y) >> i) & 1 == 1) == ((x >> i) & 1 == 1 || (y >> i) & 1 == 1),
        (((x ^ y) >> i) & 1 == 1) == (((x >> i) & 1 == 1) != ((y >> i) & 1 == 1)),
        (((!x) >> i) & 1 == 1) == !((x >> i) & 1 == 1),
        x & x == x,
        x | x == x,
        x ^ x == 0,
        (((x | (1u8 << n)) >> i) & 1 == 1) == (i == n || (x >> i) & 1 == 1),
        (((x & !(1u8 << n)) >> i) & 1 == 1) == (i != n && (x >> i) & 1 == 1),
        (x & (1u8 << i) != 0) == ((x >> i) & 1 == 1),
        (x >> i) & 1 == 0 || (x >> i) & 1 == 1,
        ((x >> i) & 1) << 1 | ((y >> i) & 1) == 2 * ((x >> i) & 1) + ((y >> i) & 1),
        i == 0 ==> (x >> i) & 1 == x % 2,
        i == 1 ==> (x >> i) & 1 == x / 2 % 2,
        i == 2 ==> (x >> i) & 1 == x / 4 % 2,
        i == 3 ==> (x >> i) & 1 == x / 8 % 2,
        i == 4 ==> (x >> i) & 1 == x / 16 % 2,
        i == 5 ==> (x >> i) & 1 == x / 32 % 2,
        i == 6 ==> (x >> i) & 1 == x / 64 % 2,
        i == 7 ==> (x >> i) & 1 == x / 128 % 2,
{
}

/// The bitwise operations of a byte with itself.
pub proof fn lemma_bits_same(x: u8)
    ensures
        x & x == x,
        x | x == x,
        x ^ x == 0,
{
    lemma_shifted_bit(x, x, 0, 0);
}

/// A bit of a byte as a shift.
proof fn lemma_bit8_shift(x: u8, i: u8)
    requires
        i < 8,
    ensures
        bit8(x, i as int) == ((x >> i) & 1 == 1),
{
    reveal(bit8);
    lemma_shifted_bit(x, 0, 0, i);
}

/// The bitwise operations on bytes at bit `i`, and a bit set, cleared and
/// tested by number.
proof fn lemma_bit8(x: u8, y: u8, n: u8, i: u8)
    requires
        n < 8,
        i < 8,
    ensures
        bit8(x & y, i as int) == (bit8(x, i as int) && bit8(y, i as int)),
        bit8(x | y, i as int) == (bit8(x, i as int) || bit8(y, i as int)),
        bit8(x ^ y, i as int) == (bit8(x, i as int) != bit8(y, i as int)),
        bit8(!x, i as int) == !bit8(x, i as int),
        bit8(x | (1u8 << n), i as int) == (i == n || bit8(x, i as int)),
        bit8(x & !(1u8 << n), i as int) == (i != n && bit8(x, i as int)),
        (x & (1u8 << i) != 0) == bit8(x, i as int),
{
    lemma_shifted_bit(x, y, n, i);
    lemma_bit8_shift(x, i);
    lemma_bit8_shift(y, i);
    lemma_bit8_shift(x & y, i);
    lemma_bit8_shift(x | y, i);
    lemma_bit8_shift(x ^ y, i);
    lemma_bit8_shift(!x, i);
    lemma_bit8_shift(x | (1u8 << n), i);
    lemma_bit8_shift(x & !(1u8 << n), i);
}

/// The bitwise operations on bytes, bit by bit, and a bit set, cleared and
/// tested by number.
pub proof fn lemma_bits8(x: u8, y: u8, n: u8)
    requires
        n < 8,
    ensures
        forall|i: int| 0 <= i < 8 ==> #[trigger] bit8(x & y, i) == (bit8(x, i) && bit8(y, i)),
        forall|i: int| 0 <= i < 8 ==> #[trigger] bit8(x | y, i) == (bit8(x, i) || bit8(y, i)),
        forall|i: int| 0 <= i < 8 ==> #[trigger] bit8(x ^ y, i) == (bit8(x, i) != bit8(y, i)),
        forall|i: int| 0 <= i < 8 ==> #[trigger] bit8(!x, i) == !bit8(x, i),
        forall|i: int| 0 <= i < 8 ==> #[trigger] bit8(x | (1u8 << n), i) == (i == n || bit8(x, i)),
        forall|i: int|
            0 <= i < 8 ==> #[trigger] bit8(x & !(1u8 << n), i) == (i != n && bit8(x, i)),
        (x & (1u8 << n) != 0) == bit8(x, n as int),
{
    assert forall|i: int| 0 <= i < 8 implies #[trigger] bit8(x & y, i) == (bit8(x, i) && bit8(y, i)) by {
        lemma_bit8(x, y, n, i as u8);
    }
    assert forall|i: int| 0 <= i < 8 implies #[trigger] bit8(x | y, i) == (bit8(x, i) || bit8(y, i)) by {
        lemma_bit8(x, y, n, i as u8);
    }
    assert forall|i: int| 0 <= i < 8 implies #[trigger] bit8(x ^ y, i) == (bit8(x, i) != bit8(y, i)) by {
        lemma_bit8(x, y, n, i as u8);
    }
    assert forall|i: int| 0 <= i < 8 implies #[trigger] bit8(!x, i) == !bit8(x, i) by {
        lemma_bit8(x, y, n, i as u8);
    }
    assert forall|i: int| 0 <= i < 8 implies #[trigger] bit8(x | (1u8 << n), i) == (i == n || bit8(x, i)) by {
        lemma_bit8(x, y, n, i as u8);
    }
    assert forall|i: int| 0 <= i < 8 implies #[trigger] bit8(x & !(1u8 << n), i) == (i != n && bit8(x, i)) by {
        lemma_bit8(x, y, n, i as u8);
    }
    lemma_bit8(x, y, n, n);
}

/// Fields of a byte by shifts and masks, and by division, and the number of
/// eleven bits that the low three bits of `x` and all of `y` make.
pub proof fn lemma_byte_fields(x: u8, y: u8)
    ensures
        x >> 4 == x / 16,
        x >> 5 == x / 32,
        x >> 6 == x / 64,
        x & 0x03 == x % 4,
        x & 0x07 == x % 8,
        x & 0x3F == x % 64,
        x & 0x7F == x % 128,
        (x >> 0) & 3 == x % 4,
        (x >> 2) & 3 == x / 4 % 4,
        (x >> 4) & 3 == x / 16 % 4,
        (x >> 6) & 3 == x / 64,
        (x >> 4) & 0x07 == x / 16 % 8,
        (x >> 5) & 0x03 == x / 32 % 4,
        (x & 0x01 != 0) == (x % 2 == 1),
        (x & 0x02 != 0) == (x / 2 % 2 == 1),
        (x & 0x04 != 0) == (x / 4 % 2 == 1),
        (x & 0x08 != 0) == (x / 8 % 2 == 1),
        (x & 0x10 != 0) == (x / 16 % 2 == 1),
        (x & 0x20 != 0) == (x / 32 % 2 == 1),
        (x & 0x40 != 0) == (x / 64 % 2 == 1),
        (x & 0x80 != 0) == (x >= 128),
        x & 0xFE == x / 2 * 2,
        (y as u16 | ((x & 0x07) as u16) << 8) % 256 == y as u16,
        (y as u16 | ((x & 0x07) as u16) << 8) / 256 == (x & 0x07) as u16,
{
    assert((x >> 4 == x / 16) && (x >> 5 == x / 32) && (x >> 6 == x / 64) && (x & 0x03 == x % 4) && (x & 0x07 == x % 8) && (x & 0x3F == x % 64) && (x & 0x7F == x % 128) && ((x >> 0) & 3 == x % 4) && ((x >> 2) & 3 == x / 4 % 4) && ((x >> 4) & 3 == x / 16 % 4) && ((x >> 6) & 3 == x / 64) && ((x >> 4) & 0x07 == x / 16 % 8) && ((x >> 5) & 0x03 == x / 32 % 4) && ((x & 0x01 != 0) == (x % 2 == 1)) && ((x & 0x02 != 0) == (x / 2 % 2 == 1)) && ((x & 0x04 != 0) == (x / 4 % 2 == 1)) && ((x & 0x08 != 0) == (x / 8 % 2 == 1)) && ((x & 0x10 != 0) == (x / 16 % 2 == 1)) && ((x & 0x20 != 0) == (x / 32 % 2 == 1)) && ((x & 0x40 != 0) == (x / 64 % 2 == 1)) && ((x & 0x80 != 0) == (x >= 128)) && (x & 0xFE == x / 2 * 2) && ((y as u16 | ((x & 0x07) as u16) << 8) % 256 == y as u16) && ((y as u16 | ((x & 0x07) as u16) << 8) / 256 == (x & 0x07) as u16)) by (bit_vector);
}

/// Bits and fields of a halfword by masks, and by division.
pub proof fn lemma_half_fields(x: u16)
    by (bit_vector)
    ensures
        (x & 0x1 != 0) == (x / 0x1 % 2 == 1),
        (x & 0x2 != 0) == (x / 0x2 % 2 == 1),
        (x & 0x4 != 0) == (x / 0x4 % 2 == 1),
        (x & 0x8 != 0) == (x / 0x8 % 2 == 1),
        (x & 0x10 != 0) == (x / 0x10 % 2 == 1),
        (x & 0x20 != 0) == (x / 0x20 % 2 == 1),
        (x & 0x40 != 0) == (x / 0x40 % 2 == 1),
        (x & 0x80 != 0) == (x / 0x80 % 2 == 1),
        (x & 0x100 != 0) == (x / 0x100 % 2 == 1),
        (x & 0x200 != 0) == (x / 0x200 % 2 == 1),
        (x & 0x400 != 0) == (x / 0x400 % 2 == 1),
        (x & 0x800 != 0) == (x / 0x800 % 2 == 1),
        (x & 0x1000 != 0) == (x / 0x1000 % 2 == 1),
        (x & 0x2000 != 0) == (x / 0x2000 % 2 == 1),
        (x & 0x4000 != 0) == (x / 0x4000 % 2 == 1),
        (x & 0x8000 != 0) == (x >= 0x8000),
        x & 0x7FF == x % 0x800,
        x & 0xFF == x % 0x100,
        x >> 8 == x / 0x100,
        x & 1 == x % 2,
{
}

/// A right shift makes no number larger.
pub proof fn lemma_shr_le(x: u64, s: u64)
    by (bit_vector)
    ensures
        x >> s <= x,
{
}

/// The number that bit `i` of `x` and of `y` make.
pub proof fn lemma_two_bits(x: u8, y: u8, i: u8)
    requires
        i < 8,
    ensures
        ((x >> i) & 1) << 1 | ((y >> i) & 1) == (if bit8(x, i as int) {
            2int
        } else {
            0
        }) + (if bit8(y, i as int) {
            1int
        } else {
            0
        }),
{
    let a = (x >> i) & 1;
    let b = (y >> i) & 1;
    lemma_shifted_bit(x, y, 0, i);
    lemma_shifted_bit(y, x, 0, i);
    lemma_bit8_shift(x, i);
    lemma_bit8_shift(y, i);
    assert(a << 1 | b == 2 * a + b);
}

/// Bit `i` of a word.
#[verifier::opaque]
pub open spec fn bit32(v: u32, i: u32) -> bool {
    (v >> i) & 1 == 1
}

/// The bitwise operations on words, bit by bit.
pub proof fn lemma_bits32(x: u32, y: u32, i: u32)
    requires
        i < 32,
    ensures
        bit32(x & y, i) == (bit32(x, i) && bit32(y, i)),
        bit32(x | y, i) == (bit32(x, i) || bit32(y, i)),
        bit32(x ^ y, i) == (bit32(x, i) != bit32(y, i)),
        bit32(!x, i) == !bit32(x, i),
        bit32(x & !y, i) == (bit32(x, i) && !bit32(y, i)),
{
    reveal(bit32);
    assert((((x & y) >> i) & 1 == 1) == ((x >> i) & 1 == 1 && (y >> i) & 1 == 1) && (((x | y) >> i)
        & 1 == 1) == ((x >> i) & 1 == 1 || (y >> i) & 1 == 1) && (((x ^ y) >> i) & 1 == 1) == (((x
        >> i) & 1 == 1) != ((y >> i) & 1 == 1)) && (((!x) >> i) & 1 == 1) == !((x >> i) & 1 == 1)
        && (((x & !y) >> i) & 1 == 1) == ((x >> i) & 1 == 1 && !((y >> i) & 1 == 1)))
        by (bit_vector)
        requires
            i < 32,
    ;
}

/// The eight bytes of `v`, most significant first.
pub open spec fn be_bytes(v: u64) -> Seq<u8> {
    let v1 = v / 256;
    let v2 = v1 / 256;
    let v3 = v2 / 256;
    let v4 = v3 / 256;
    let v5 = v4 / 256;
    let v6 = v5 / 256;
    let v7 = v6 / 256;
    seq![
        v7 as u8,
        (v6 % 256) as u8,
        (v5 % 256) as u8,
        (v4 % 256) as u8,
        (v3 % 256) as u8,
        (v2 % 256) as u8,
        (v1 % 256) as u8,
        (v % 256) as u8,
    ]
}

/// The number with the bytes `b`, most significant first.
pub open spec fn from_be(b: Seq<u8>) -> u64 {
    let high = ((b[0] * 256 + b[1]) * 256 + b[2]) * 256 + b[3];
    ((((high * 256 + b[4]) * 256 + b[5]) * 256 + b[6]) * 256 + b[7]) as u64
}

pub fn to_be(v: u64) -> (r: [u8; 8])
    ensures
        r@ == be_bytes(v),
{
    let v1: u64 = v / 256;
    let v2: u64 = v1 / 256;
    let v3: u64 = v2 / 256;
    let v4: u64 = v3 / 256;
    let v5: u64 = v4 / 256;
    let v6: u64 = v5 / 256;
    let v7: u64 = v6 / 256;
    let r: [u8; 8] = [
        v7 as u8,
        (v6 % 256) as u8,
        (v5 % 256) as u8,
        (v4 % 256) as u8,
        (v3 % 256) as u8,
        (v2 % 256) as u8,
        (v1 % 256) as u8,
        (v % 256) as u8,
    ];
    assert(r@ =~= be_bytes(v));
    r
}

/// A number is the one with its bytes.
pub proof fn lemma_be_round_trip(v: u64)
    ensures
        be_bytes(v).len() == 8,
        from_be(be_bytes(v)) == v,
{
    let v1 = v / 256;
    let v2 = v1 / 256;
    let v3 = v2 / 256;
    let v4 = v3 / 256;
    let v5 = v4 / 256;
    let v6 = v5 / 256;
    let v7 = v6 / 256;
    assert(v7 <= 255);
}

} // verus!
