//! Little-endian words and byte memories.
//!
//! A memory is a sequence of bytes; an access that does not lie wholly inside
//! it reads as 0 and stores nothing.

use vstd::prelude::*;

verus! {

/// Little-endian word made of four bytes, `b0` in bits `[7:0]`.
pub open spec fn le_word(b0: u8, b1: u8, b2: u8, b3: u8) -> u32 {
    (b0 as u32) | ((b1 as u32) << 8) | ((b2 as u32) << 16) | ((b3 as u32) << 24)
}

/// Little-endian halfword made of two bytes, `b0` in bits `[7:0]`.
pub open spec fn le_half(b0: u8, b1: u8) -> u16 {
    (b0 as u16) | ((b1 as u16) << 8)
}

/// Byte lane `k` (0..=3) of a word, lane 0 holding bits `[7:0]`.
pub open spec fn byte_lane(w: u32, k: u32) -> u8 {
    ((w >> ((8 * k) as u32)) & 0xFF) as u8
}

/// Splitting a word into byte lanes and reassembling them gives the word back.
pub proof fn lemma_le_word_of_lanes(w: u32)
    ensures
        le_word(byte_lane(w, 0), byte_lane(w, 1), byte_lane(w, 2), byte_lane(w, 3)) == w,
{
    assert(((((w >> 0u32) & 0xFF) as u8) as u32) | (((((w >> 8u32) & 0xFF) as u8) as u32) << 8)
        | (((((w >> 16u32) & 0xFF) as u8) as u32) << 16)
        | (((((w >> 24u32) & 0xFF) as u8) as u32) << 24) == w) by (bit_vector);
}

/// Byte lane `k` of a word assembled from four bytes is the `k`-th byte.
pub proof fn lemma_lanes_of_le_word(b0: u8, b1: u8, b2: u8, b3: u8)
    ensures
        byte_lane(le_word(b0, b1, b2, b3), 0) == b0,
        byte_lane(le_word(b0, b1, b2, b3), 1) == b1,
        byte_lane(le_word(b0, b1, b2, b3), 2) == b2,
        byte_lane(le_word(b0, b1, b2, b3), 3) == b3,
{
    let w = le_word(b0, b1, b2, b3);
    assert(((w >> 0u32) & 0xFF) as u8 == b0 && ((w >> 8u32) & 0xFF) as u8 == b1
        && ((w >> 16u32) & 0xFF) as u8 == b2 && ((w >> 24u32) & 0xFF) as u8 == b3) by (bit_vector)
        requires
            w == (b0 as u32) | ((b1 as u32) << 8) | ((b2 as u32) << 16) | ((b3 as u32) << 24),
    ;
}

/// The word at byte offset `off`; 0 where it does not lie inside the memory.
pub open spec fn word_at(mem: Seq<u8>, off: int) -> u32 {
    if 0 <= off && off + 4 <= mem.len() {
        le_word(mem[off], mem[off + 1], mem[off + 2], mem[off + 3])
    } else {
        0
    }
}

/// The halfword at byte offset `off`; 0 where it does not lie inside the memory.
pub open spec fn half_at(mem: Seq<u8>, off: int) -> u16 {
    if 0 <= off && off + 2 <= mem.len() {
        le_half(mem[off], mem[off + 1])
    } else {
        0
    }
}

/// The byte at offset `off`; 0 where the memory has none.
pub open spec fn byte_at(mem: Seq<u8>, off: int) -> u8 {
    if 0 <= off < mem.len() {
        mem[off]
    } else {
        0
    }
}

/// The memory after a byte store; unchanged where there is no such byte.
pub open spec fn with_byte(mem: Seq<u8>, off: int, b: u8) -> Seq<u8> {
    if 0 <= off < mem.len() {
        mem.update(off, b)
    } else {
        mem
    }
}

/// The memory after a store of the low halfword of `w`; unchanged where the
/// halfword does not lie inside the memory.
pub open spec fn with_half(mem: Seq<u8>, off: int, w: u32) -> Seq<u8> {
    if 0 <= off && off + 2 <= mem.len() {
        mem.update(off, byte_lane(w, 0)).update(off + 1, byte_lane(w, 1))
    } else {
        mem
    }
}

/// The low lanes of a word make up its low byte and halfword.
pub proof fn lemma_low_lanes(w: u32)
    ensures
        byte_lane(w, 0) as u32 == w & 0xFF,
        le_half(byte_lane(w, 0), byte_lane(w, 1)) as u32 == w & 0xFFFF,
{
    assert((((w >> 0u32) & 0xFF) as u8) as u32 == w & 0xFF && (((((w >> 0u32) & 0xFF) as u8) as u16)
        | (((((w >> 8u32) & 0xFF) as u8) as u16) << 8)) as u32 == w & 0xFFFF) by (bit_vector);
}

/// The memory after a word store at byte offset `off`; unchanged where the word
/// does not lie inside the memory.
pub open spec fn with_word(mem: Seq<u8>, off: int, w: u32) -> Seq<u8> {
    if 0 <= off && off + 4 <= mem.len() {
        mem.update(off, byte_lane(w, 0)).update(off + 1, byte_lane(w, 1)).update(
            off + 2,
            byte_lane(w, 2),
        ).update(off + 3, byte_lane(w, 3))
    } else {
        mem
    }
}

/// A word load gives back what the word store at the same offset wrote.
pub proof fn lemma_word_read_back(mem: Seq<u8>, off: int, w: u32)
    requires
        0 <= off,
        off + 4 <= mem.len(),
    ensures
        word_at(with_word(mem, off, w), off) == w,
{
    lemma_le_word_of_lanes(w);
}

/// A word store leaves every byte outside its four alone, and the size too.
pub proof fn lemma_word_store_frame(mem: Seq<u8>, off: int, w: u32, i: int)
    requires
        0 <= i < mem.len(),
        i < off || off + 4 <= i,
    ensures
        with_word(mem, off, w).len() == mem.len(),
        with_word(mem, off, w)[i] == mem[i],
{
}

/// Assemble a little-endian word.
pub fn word_from_le(b0: u8, b1: u8, b2: u8, b3: u8) -> (w: u32)
    ensures
        w == le_word(b0, b1, b2, b3),
{
    (b0 as u32) | ((b1 as u32) << 8) | ((b2 as u32) << 16) | ((b3 as u32) << 24)
}

/// Byte lane `k` of a word.
pub fn lane(w: u32, k: u32) -> (b: u8)
    requires
        k < 4,
    ensures
        b == byte_lane(w, k),
{
    ((w >> (8 * k)) & 0xFF) as u8
}

/// Load the word at byte offset `off`.
pub fn load_word(mem: &[u8], off: usize) -> (w: u32)
    ensures
        w == word_at(mem@, off as int),
{
    if mem.len() >= 4 && off <= mem.len() - 4 {
        word_from_le(mem[off], mem[off + 1], mem[off + 2], mem[off + 3])
    } else {
        0
    }
}

/// Load the halfword at byte offset `off`.
pub fn load_half(mem: &[u8], off: usize) -> (h: u16)
    ensures
        h == half_at(mem@, off as int),
{
    if mem.len() >= 2 && off <= mem.len() - 2 {
        (mem[off] as u16) | ((mem[off + 1] as u16) << 8)
    } else {
        0
    }
}

/// Load the byte at offset `off`.
pub fn load_byte(mem: &[u8], off: usize) -> (b: u8)
    ensures
        b == byte_at(mem@, off as int),
{
    if off < mem.len() {
        mem[off]
    } else {
        0
    }
}

/// Store a byte at offset `off`.
pub fn store_byte(mem: &mut [u8], off: usize, b: u8)
    ensures
        final(mem)@ == with_byte(old(mem)@, off as int, b),
{
    if off < mem.len() {
        mem[off] = b;
    }
}

/// Store the low halfword of `w` at byte offset `off`.
pub fn store_half(mem: &mut [u8], off: usize, w: u32)
    ensures
        final(mem)@ == with_half(old(mem)@, off as int, w),
{
    if mem.len() >= 2 && off <= mem.len() - 2 {
        mem[off] = lane(w, 0);
        mem[off + 1] = lane(w, 1);
    }
}

/// Store a word at byte offset `off`.
pub fn store_word(mem: &mut [u8], off: usize, w: u32)
    ensures
        final(mem)@ == with_word(old(mem)@, off as int, w),
{
    if mem.len() >= 4 && off <= mem.len() - 4 {
        mem[off] = lane(w, 0);
        mem[off + 1] = lane(w, 1);
        mem[off + 2] = lane(w, 2);
        mem[off + 3] = lane(w, 3);
    }
}

} // verus!
