//! Facts about masks, shifts and single bits that the register models rely on.

use vstd::prelude::*;

verus! {

/// A masked value never exceeds its mask.
pub broadcast proof fn lemma_and_le(x: u32, m: u32)
    by (bit_vector)
    ensures
        #[trigger] (x & m) <= m,
{
}

/// A right shift by `k` leaves at most `32 - k` bits.
pub broadcast proof fn lemma_shr_le(x: u32, k: u32)
    by (bit_vector)
    requires
        k < 32,
    ensures
        #[trigger] (x >> k) <= 0xFFFF_FFFFu32 >> k,
{
}

/// Setting bits: the mask reads back set.
pub broadcast proof fn lemma_or_sets(x: u32, m: u32)
    by (bit_vector)
    ensures
        #[trigger] ((x | m) & m) == m,
{
}

/// Masks: what is cleared is gone, what is set is there.
pub proof fn lemma_masks(x: u32, m: u32, y: u32)
    by (bit_vector)
    ensures
        (x & !m) & m == 0,
        ((x & !m) | m) & m == m,
        (x | m) & m == m,
        (x | m) | m == x | m,
        ((x | m) | y) & m == m,
        (x & m) & m == x & m,
        x & 0 == 0,
        0 & x == 0,
{
}

/// Values of constant masks and shifts.
pub proof fn lemma_constants()
    by (bit_vector)
    ensures
        0xFFFF_FFFFu32 >> 28 == 15,
        0xFFFF_FFFFu32 >> 31 == 1,
        0xFFu8 & 0xC0 == 0xC0,
        0xFDu8 & 0xC0 == 0xC0,
        (1u32 << 31) & 1 == 0,
        (1u32 << 31) & (1u32 << 31) != 0,
        (1u32 << 30) & (1u32 << 30) != 0,
        (1u32 << 4) & (1u32 << 4) != 0,
        (1u32 << 4) & (1u32 << 2) == 0,
        (1u32 << 4) & (1u32 << 3) == 0,
        (1u32 << 2) & (1u32 << 2) != 0,
        (1u32 << 2) & 1 == 0,
        (1u32 << 2) & (1u32 << 4) == 0,
        (1u32 << 2) & (1u32 << 3) == 0,
        1u32 << 2 != 0,
        1u32 << 8 != 0,
        1u32 << 8 == 0x100,
        0u32 & 0x3000 == 0,
        0u32 & 0xA == 0,
        0u32 & 0u32 == 0,
        0u32 & 1 == 0,
        0u32 & 2 == 0,
        0u32 & 4 == 0,
        0u32 & 8 == 0,
        0u32 & 0x40 == 0,
        0u32 & 0x80 == 0,
        0u32 & 0x100 == 0,
        0u32 & 0x200 == 0,
        0u32 & 0x800 == 0,
        0u32 & 0x2000 == 0,
        0u32 | 0 == 0,
        1u32 << 3 == 8,
        16u32 & (1u32 << 2) == 0,
        16u32 & (1u32 << 3) == 0,
        16u32 & 1 == 0,
        16u32 & (1u32 << 4) != 0,
        1u32 & (1u32 << 2) == 0,
        1u32 & (1u32 << 3) == 0,
        1u32 & 1 != 0,
        1u32 & (1u32 << 4) == 0,
        (0xDC_DBC0u32 & 0xFF) as u8 == 0xC0,
        ((0xDC_DBC0u32 >> 8) & 0xFF) as u8 == 0xDB,
        ((0xDC_DBC0u32 >> 16) & 0xFF) as u8 == 0xDC,
        1u32 << 1 == 2,
        1u32 << 2 == 4,
        1u32 << 22 == 0x40_0000,
        1u32 << 23 == 0x80_0000,
        1u32 << 24 == 0x100_0000,
        1u32 << 0 == 1,
        0x03u32 & 3 == 3,
        0x13u32 & 3 == 3,
        0x17u32 & 3 == 3,
        0x23u32 & 3 == 3,
        0x33u32 & 3 == 3,
        0x37u32 & 3 == 3,
        0x63u32 & 3 == 3,
        0x67u32 & 3 == 3,
        0x6Fu32 & 3 == 3,
        0x73u32 & 3 == 3,
        0x0010_0073u32 & 3 == 3,
        0x0010_0073u32 & 0x7F == 0x73,
        (0x0010_0073u32 >> 20) & 0xFFF == 1,
        0x9002u32 & 3 == 2,
        (0x9002u32 >> 13) & 7 == 4,
        (0x9002u32 >> 12) & 1 == 1,
        (0x9002u32 >> 2) & 0x1F == 0,
        (0x9002u32 >> 7) & 0x1F == 0,
{
}

/// Bit `k` of `x`, as 0 or 1.
pub open spec fn bit(x: u32, k: u32) -> u32 {
    (x >> k) & 1
}

/// Bit `k` of `x`, as 0 or 1.
pub fn bit_of(x: u32, k: u32) -> (b: u32)
    requires
        k < 32,
    ensures
        b == bit(x, k),
{
    (x >> k) & 1
}

/// The low `n` bits of `v`, sign-extended to a word: bit `n - 1` fills the bits
/// above it.
pub open spec fn sign_extended(v: u32, n: u32) -> u32 {
    let mask = 0xFFFF_FFFFu32 >> ((32 - n) as u32);
    if bit(v, (n - 1) as u32) == 1 {
        v | !mask
    } else {
        v & mask
    }
}

/// Sign-extend `v` (a value with `n` meaningful low bits) to a 32-bit word.
pub fn sext(v: u32, n: u32) -> (w: u32)
    requires
        1 <= n <= 32,
    ensures
        w == sign_extended(v, n),
{
    let s: u32 = 32 - n;
    proof {
        assert((((v as i32) << s) >> s) as u32 == if (v >> ((31 - s) as u32)) & 1 == 1 {
            v | !(0xFFFF_FFFFu32 >> s)
        } else {
            v & (0xFFFF_FFFFu32 >> s)
        }) by (bit_vector)
            requires
                s < 32,
        ;
    }
    (((v as i32) << s) >> s) as u32
}

/// A byte with its bits in the opposite order.
pub open spec fn reversed(b: u8) -> u8 {
    ((b & 0x01) << 7) | ((b & 0x02) << 5) | ((b & 0x04) << 3) | ((b & 0x08) << 1) | ((b & 0x10) >> 1)
        | ((b & 0x20) >> 3) | ((b & 0x40) >> 5) | ((b & 0x80) >> 7)
}

/// A byte with its bits in the opposite order.
pub fn reverse_byte(b: u8) -> (r: u8)
    ensures
        r == reversed(b),
{
    ((b & 0x01) << 7) | ((b & 0x02) << 5) | ((b & 0x04) << 3) | ((b & 0x08) << 1) | ((b & 0x10) >> 1)
        | ((b & 0x20) >> 3) | ((b & 0x40) >> 5) | ((b & 0x80) >> 7)
}

/// Reversing twice gives the byte back, bit `k` goes to bit `7 - k`, and zero
/// stays zero.
pub proof fn lemma_reversed(b: u8, k: u8)
    by (bit_vector)
    requires
        k < 8,
    ensures
        reversed(reversed(b)) == b,
        (reversed(b) >> k) & 1 == (b >> ((7 - k) as u8)) & 1,
        reversed(0) == 0,
        0u8 >> k == 0,
        0u8 & 1 == 0,
        b < 0x80 ==> b & 0x7F == b,
{
}

/// Setting bit `n` sets that bit and no other.
pub proof fn lemma_set_bit(x: u32, n: u32, k: u32)
    by (bit_vector)
    requires
        n < 32,
        k < 32,
    ensures
        ((x | (1u32 << n)) >> k) & 1 == if k == n {
            1u32
        } else {
            (x >> k) & 1
        },
        (0u32 >> k) & 1 == 0,
        1u32 << k >= 1,
{
}

/// Two words differ in bit `k` exactly if they differ under its mask.
pub proof fn lemma_bit_differs(x: u32, y: u32, k: u32)
    by (bit_vector)
    requires
        k < 32,
    ensures
        x & (1u32 << k) != y & (1u32 << k) <==> (x >> k) & 1 != (y >> k) & 1,
        x & (1u32 << k) != 0 <==> (x >> k) & 1 == 1,
        (x >> k) & 1 == 0 || (x >> k) & 1 == 1,
{
}

/// A level moved into bit `n` of a word shows there, and nowhere else.
pub proof fn lemma_or_level(x: u32, level: u32, n: u32, k: u32)
    by (bit_vector)
    requires
        level <= 1,
        n < 32,
        k < 32,
    ensures
        ((x | (level << n)) >> k) & 1 == if k == n {
            ((x >> k) & 1) | level
        } else {
            (x >> k) & 1
        },
        0 | level == level,
{
}

/// A value below its mask of ones is kept by it.
pub proof fn lemma_low_seven(b: u8)
    ensures
        b < 0x80 ==> b & 0x7F == b,
{
    lemma_reversed(b, 0);
}

/// Two words that make up a long word, and the halves of a long word, in arithmetic.
pub proof fn lemma_wide(lo: u32, hi: u32, c: u64)
    by (bit_vector)
    ensures
        (lo as u64) | ((hi as u64) << 32) == lo + 0x1_0000_0000 * hi,
        ((hi as u64) << 32) | (lo as u64) == lo + 0x1_0000_0000 * hi,
        ((c >> 32) as u32) as u64 == c / 0x1_0000_0000,
        (((c >> 32) & 0xF_FFFF) as u32) as u64 == (c / 0x1_0000_0000) % 0x10_0000,
        (c as u32) as u64 == c % 0x1_0000_0000,
        c & 1 <= 1,
        c & 0xF_FFFF_FFFF_FFFF == c % 0x10_0000_0000_0000,
{
}

/// Fields of a word in arithmetic.
pub proof fn lemma_fields(lo: u32)
    by (bit_vector)
    ensures
        lo >> 31 == lo / 0x8000_0000,
        (lo & 0x1FFF_E000) >> 13 == (lo / 0x2000) % 0x1_0000,
        (lo >> 16) & 0xFFFF == lo / 0x1_0000,
        (lo >> 29) & 3 == (lo / 0x2000_0000) % 4,
        (lo >> 27) & 3 == (lo / 0x800_0000) % 4,
        (lo >> 25) & 3 == (lo / 0x200_0000) % 4,
        (lo >> 23) & 3 == (lo / 0x80_0000) % 4,
        lo & 0x3FF_FFFF == lo % 0x400_0000,
        lo & 0x3FF == lo % 0x400,
        lo & 0xFFF == lo % 0x1000,
        (lo >> 17) & 0x3FF == (lo / 0x2_0000) % 0x400,
        (lo >> 7) & 0x3FF == (lo / 0x80) % 0x400,
        (lo >> 10) & 0x3FF == (lo / 0x400) % 0x400,
        lo & (1u32 << 31) != 0 <==> lo >= 0x8000_0000,
        lo & (1u32 << 30) != 0 <==> (lo / 0x4000_0000) % 2 == 1,
        lo & (1u32 << 29) != 0 <==> (lo / 0x2000_0000) % 2 == 1,
        lo & (1u32 << 23) != 0 <==> (lo / 0x80_0000) % 2 == 1,
        lo & (1u32 << 22) != 0 <==> (lo / 0x40_0000) % 2 == 1,
        lo & (1u32 << 15) != 0 <==> (lo / 0x8000) % 2 == 1,
        lo & (1u32 << 14) != 0 <==> (lo / 0x4000) % 2 == 1,
        lo & (1u32 << 10) != 0 <==> (lo / 0x400) % 2 == 1,
        lo & (1u32 << 8) != 0 <==> (lo / 0x100) % 2 == 1,
        lo & (1u32 << 2) != 0 <==> (lo / 4) % 2 == 1,
        lo & (1u32 << 1) != 0 <==> (lo / 2) % 2 == 1,
        lo & 1 != 0 <==> lo % 2 == 1,
        lo & 0x1 != 0 <==> (lo >> 0) & 1 == 1,
        lo & 0x2 != 0 <==> (lo >> 1) & 1 == 1,
        lo & 0x4 != 0 <==> (lo >> 2) & 1 == 1,
        lo & 0x8 != 0 <==> (lo >> 3) & 1 == 1,
        lo & 0x40 != 0 <==> (lo >> 6) & 1 == 1,
        lo & 0x80 != 0 <==> (lo >> 7) & 1 == 1,
        lo & 0x100 != 0 <==> (lo >> 8) & 1 == 1,
        lo & 0x400 != 0 <==> (lo >> 10) & 1 == 1,
        (lo >> 7) & 7 == (lo / 0x80) % 8,
        lo & 0x3F_FFFF == lo % 0x40_0000,
        lo < 0x4000 ==> lo & 0x4000 == 0 && lo & 0x8000 == 0 && lo & 0x3FFF == lo,
        0x8000 <= lo < 0xC000 ==> lo & 0x4000 == 0 && lo & 0x8000 != 0 && lo & 0x3FFF == lo - 0x8000,
        lo & 0x4000 != 0 <==> (lo / 0x4000) % 2 == 1,
        (lo & !(1u32 << 23)) & (1u32 << 24) == lo & (1u32 << 24),
        lo >> 28 == lo / 0x1000_0000,
        (lo >> 27) & 0x1F == lo / 0x800_0000,
        lo & 0xFF == lo % 0x100,
        lo & 0x3_FFFF == lo % 0x4_0000,
        (lo >> 12) & 0x3F == (lo / 0x1000) % 0x40,
        (lo >> 6) & 0x3F == (lo / 0x40) % 0x40,
        (lo >> 18) & 0xF == (lo / 0x4_0000) % 0x10,
        (lo & 0x7FFF_0000) >> 16 == (lo / 0x1_0000) % 0x8000,
        (lo & 0x6000) >> 13 == (lo / 0x2000) % 4,
        lo <= 0x1FF_FFFF ==> (lo << 7) | 1 == lo * 0x80 + 1,
{
}

} // verus!
