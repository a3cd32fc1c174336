//! Plain register storage.
//!
//! Pages without modeled side effects keep what is written and read it back.
//! Offsets outside the page read as 0 and ignore writes.

use vstd::prelude::*;

verus! {

/// A page of registers.
pub struct RegStore {
    words: Vec<u32>,
}

impl View for RegStore {
    type V = Seq<u32>;

    closed spec fn view(&self) -> Seq<u32> {
        self.words@
    }
}

/// Word at byte offset `off`; 0 outside the page.
pub open spec fn stored(words: Seq<u32>, off: u32) -> u32 {
    if off / 4 < words.len() {
        words[(off / 4) as int]
    } else {
        0
    }
}

/// The page after a write at byte offset `off`.
pub open spec fn storing(words: Seq<u32>, off: u32, value: u32) -> Seq<u32> {
    if off / 4 < words.len() {
        words.update((off / 4) as int, value)
    } else {
        words
    }
}

impl RegStore {
    /// A zeroed page of `size` bytes.
    pub fn new(size: usize) -> (r: Self)
        ensures
            r@ == Seq::new((size / 4) as nat, |i: int| 0u32),
    {
        let r = RegStore { words: vec![0u32; size / 4] };
        assert(r@ =~= Seq::new((size / 4) as nat, |i: int| 0u32));
        r
    }

    pub fn read32(&self, off: u32) -> (v: u32)
        ensures
            v == stored(self@, off),
    {
        let i: usize = (off / 4) as usize;
        if i < self.words.len() {
            self.words[i]
        } else {
            0
        }
    }

    pub fn write32(&mut self, off: u32, value: u32)
        ensures
            final(self)@ == storing(old(self)@, off, value),
    {
        let i: usize = (off / 4) as usize;
        if i < self.words.len() {
            self.words[i] = value;
        }
    }
}

/// A register reads back what was written to it, and no other register changes.
pub proof fn law_register_round_trip(words: Seq<u32>, off: u32, other: u32, value: u32)
    requires
        off / 4 < words.len(),
        other / 4 != off / 4,
    ensures
        stored(storing(words, off, value), off) == value,
        stored(storing(words, off, value), other) == stored(words, other),
{
}

} // verus!
