//! Flash encryption as configured in the eFuses: whether it is on, how the key
//! is laid out, and which blocks of a region are encrypted.

use vstd::prelude::*;

verus! {

/// Number of set bits among the lowest `n`.
pub open spec fn ones(v: u32, n: nat) -> nat
    decreases n,
{
    if n == 0 {
        0
    } else {
        ones(v, (n - 1) as nat) + ((v >> ((n - 1) as u32)) & 1) as nat
    }
}

/// An odd number of bits is set.
pub open spec fn odd(v: u32) -> bool {
    ones(v, 32) % 2 == 1
}

/// Encryption is on while an odd number of the counter's bits is set.
pub fn crypt_enabled(crypt_cnt: u32) -> (on: bool)
    ensures
        on == odd(crypt_cnt),
{
    let mut n: u32 = 0;
    let mut i: u32 = 0;
    while i < 32
        invariant
            i <= 32,
            n == ones(crypt_cnt, i as nat),
            n <= i,
        decreases 32 - i,
    {
        broadcast use crate::bits::lemma_and_le;

        n = n + ((crypt_cnt >> i) & 1);
        i = i + 1;
    }
    n % 2 == 1
}

/// Big-endian word of four key bytes.
pub open spec fn be_word(b0: u8, b1: u8, b2: u8, b3: u8) -> u32 {
    ((b0 as u32) << 24) | ((b1 as u32) << 16) | ((b2 as u32) << 8) | (b3 as u32)
}

/// The eight eFuse words of a 256-bit key, each big-endian.
pub fn flashenc_key_words(key: &[u8; 32]) -> (words: [u32; 8])
    ensures
        forall|i: int|
            0 <= i < 8 ==> words@[i] == be_word(
                key@[4 * i],
                key@[4 * i + 1],
                key@[4 * i + 2],
                key@[4 * i + 3],
            ),
{
    let mut words: [u32; 8] = [0u32; 8];
    let mut i: usize = 0;
    while i < 8
        invariant
            i <= 8,
            forall|j: int|
                0 <= j < i ==> words@[j] == be_word(
                    key@[4 * j],
                    key@[4 * j + 1],
                    key@[4 * j + 2],
                    key@[4 * j + 3],
                ),
        decreases 8 - i,
    {
        words[i] = ((key[4 * i] as u32) << 24) | ((key[4 * i + 1] as u32) << 16) | ((key[4 * i
            + 2] as u32) << 8) | (key[4 * i + 3] as u32);
        i = i + 1;
    }
    words
}

/// First block of a region: the 16-byte block that holds its first byte.
pub open spec fn first_block(off: u32) -> int {
    off - off % 16
}

/// Number of blocks of a region that lie wholly before its end, and the end of
/// the flash.
pub open spec fn block_count(off: u32, len: u32, flash_len: nat) -> nat {
    let end = if off + len <= flash_len {
        off + len
    } else {
        flash_len as int
    };
    if end <= first_block(off) {
        0
    } else {
        ((end - first_block(off)) / 16) as nat
    }
}

/// Offsets of the blocks that are encrypted for a region, each on its own with
/// its offset as the tweak.
pub fn flashenc_blocks(off: u32, len: u32, flash_len: u32) -> (blocks: Vec<u32>)
    ensures
        blocks@ == Seq::new(
            block_count(off, len, flash_len as nat),
            |i: int| (first_block(off) + 16 * i) as u32,
        ),
{
    let sum: u64 = off as u64 + len as u64;
    let end: u64 = if sum <= flash_len as u64 {
        sum
    } else {
        flash_len as u64
    };
    let first: u64 = off as u64 - (off % 16) as u64;
    let mut blocks: Vec<u32> = Vec::new();
    let mut b: u64 = first;
    let ghost n = block_count(off, len, flash_len as nat);
    while b + 16 <= end
        invariant
            first == first_block(off),
            b == first + 16 * blocks@.len(),
            end <= u32::MAX,
            first <= u32::MAX,
            n == if end <= first {
                0
            } else {
                ((end - first) / 16) as nat
            },
            blocks@.len() <= n,
            blocks@ == Seq::new(blocks@.len(), |i: int| (first_block(off) + 16 * i) as u32),
        decreases end - b,
    {
        blocks.push(b as u32);
        b = b + 16;
        assert(blocks@ =~= Seq::new(
            blocks@.len(),
            |i: int| (first_block(off) + 16 * i) as u32,
        ));
    }
    assert(blocks@.len() == n);
    blocks
}

/// Burning one more bit of the counter turns encryption from off to on, or from
/// on to off.
pub proof fn law_each_burn_toggles(v: u32, k: u32)
    requires
        k < 32,
        (v >> k) & 1 == 0,
    ensures
        ones(v | (1u32 << k), 32) == ones(v, 32) + 1,
        odd(v | (1u32 << k)) == !odd(v),
{
    lemma_ones_set(v, k, 32);
}

proof fn lemma_ones_set(v: u32, k: u32, n: nat)
    requires
        k < 32,
        n <= 32,
        (v >> k) & 1 == 0,
    ensures
        ones(v | (1u32 << k), n) == ones(v, n) + if k < n {
            1nat
        } else {
            0nat
        },
    decreases n,
{
    if n > 0 {
        lemma_ones_set(v, k, (n - 1) as nat);
        crate::bits::lemma_set_bit(v, k, (n - 1) as u32);
    }
}

} // verus!
