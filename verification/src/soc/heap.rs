//! Allocation from the firmware's heap, done by the host in the firmware's own
//! two-level segregated-fit structures.
//!
//! A heap descriptor holds its capabilities first, its handle at +28 and the
//! next descriptor at +32. The allocator's control block stands 20 bytes after
//! the handle: a packed geometry word at +16, the first-level bitmap at +24, the
//! second-level bitmaps and the free-list heads behind the pointers at +28 and
//! +32. A block has the block before it at +0, its size and two flags (bit 0:
//! free, bit 1: the one before is free) at +4, and while it is free its list
//! neighbours at +8 (previous) and +12 (next). Its user data starts at +8.

use super::{Soc, SocState};
use vstd::prelude::*;

verus! {

/// Capabilities of the heap that plain allocations come from: default, byte
/// access.
pub const HEAP_CAPS: u32 = 0x1004;

/// Heap descriptors looked at.
pub const MAX_HEAPS: u32 = 8;

/// Largest request that can be rounded up to whole words.
pub const MAX_REQUEST: u32 = 0xFFFF_FFFC;

/// Shape of the free-list table.
#[derive(Clone, Copy, PartialEq, Eq, Structural)]
pub struct Geometry {
    /// Shift of the first-level index.
    pub fls: u32,
    /// Lists in a first-level class, and its logarithm rounded up.
    pub slc: u32,
    pub sl2: u32,
    /// Sizes below this share the first class.
    pub small: u32,
}

/// Logarithm to base 2, rounded up, of a number up to 63.
pub open spec fn log2_up(n: u32) -> u32 {
    if n <= 1 {
        0
    } else if n <= 2 {
        1
    } else if n <= 4 {
        2
    } else if n <= 8 {
        3
    } else if n <= 16 {
        4
    } else if n <= 32 {
        5
    } else {
        6
    }
}

/// Geometry held in the packed word.
pub open spec fn geometry(packed: u32) -> Geometry {
    let slc = (packed >> 14) & 0x3F;
    Geometry {
        fls: (packed >> 5) & 7,
        slc: slc,
        sl2: log2_up(slc),
        small: (packed >> 23) & 0xFF,
    }
}

/// Position of the highest set bit.
pub open spec fn top_bit(size: u32) -> int {
    31 - vstd::std_specs::bits::u32_leading_zeros(size)
}

impl Geometry {
    /// Request rounded up so that every block of its list is large enough; none
    /// where it cannot be rounded.
    pub open spec fn rounded(self, need: u32) -> Option<u32> {
        let f = top_bit(need);
        if need < self.small {
            Some(need)
        } else if f < self.sl2 {
            None
        } else {
            let round = 1u32 << ((f - self.sl2) as u32);
            if need + round > u32::MAX {
                None
            } else {
                Some(((need + round - 1) as u32) & !((round - 1) as u32))
            }
        }
    }

    /// Small sizes can be told apart by their lists.
    pub open spec fn divides(self) -> bool {
        1 <= self.slc <= self.small
    }

    /// List of a block size: first-level and second-level index; none where the
    /// table has no such list.
    pub open spec fn class(self, size: u32) -> Option<(u32, u32)> {
        let f = top_bit(size);
        if size == 0 {
            None
        } else if size < self.small {
            if !self.divides() {
                None
            } else {
                let sl = size / (self.small / self.slc);
                if sl < 32 {
                    Some((0u32, sl))
                } else {
                    None
                }
            }
        } else if f < self.sl2 || f + 1 < self.fls {
            None
        } else {
            let sl = (size >> ((f - self.sl2) as u32)) ^ (1u32 << self.sl2);
            if sl < 32 {
                Some(((f + 1 - self.fls) as u32, sl))
            } else {
                None
            }
        }
    }

    /// Cell of the list head `(fl, sl)`.
    pub open spec fn head_cell(self, bl_base: u32, fl: u32, sl: u32) -> u32 {
        bl_base.wrapping_add(fl.wrapping_mul(self.slc).wrapping_add(sl).wrapping_mul(4))
    }
}

/// Size that is searched for: the request in words, at least three.
pub open spec fn words_up(user_bytes: u32) -> u32 {
    let need = ((user_bytes + 3) as u32) & !3u32;
    if need < 12 {
        12
    } else {
        need
    }
}

/// The free block that was chosen, and its list.
#[derive(Clone, Copy, PartialEq, Eq, Structural)]
pub struct Choice {
    pub fl: u32,
    pub sl: u32,
    pub block: u32,
}

/// Control block as read.
#[derive(Clone, Copy, PartialEq, Eq, Structural)]
pub struct Control {
    pub at: u32,
    pub geo: Geometry,
    pub fl_bitmap: u32,
    pub sl_base: u32,
    pub bl_base: u32,
}

impl SocState {
    /// Handle of the first heap for plain allocations among the descriptors from
    /// `heap` on; 0 if there is none.
    pub open spec fn heap_found(self, heap: u32, fuel: nat) -> (u32, SocState)
        decreases fuel,
    {
        if heap == 0 || fuel == 0 {
            (0, self)
        } else {
            let caps = self.read32(heap);
            let s1 = self.after_read32(heap);
            if caps & HEAP_CAPS == HEAP_CAPS {
                let cell = heap.wrapping_add(28);
                (s1.read32(cell), s1.after_read32(cell))
            } else {
                let cell = heap.wrapping_add(32);
                s1.after_read32(cell).heap_found(s1.read32(cell), (fuel - 1) as nat)
            }
        }
    }

    /// The control block of the heap with the given handle.
    pub open spec fn control(self, handle: u32) -> (Control, SocState) {
        let at = handle.wrapping_add(20);
        let packed = self.read32(at.wrapping_add(16));
        let s1 = self.after_read32(at.wrapping_add(16));
        let fl_bitmap = s1.read32(at.wrapping_add(24));
        let s2 = s1.after_read32(at.wrapping_add(24));
        let sl_base = s2.read32(at.wrapping_add(28));
        let s3 = s2.after_read32(at.wrapping_add(28));
        let bl_base = s3.read32(at.wrapping_add(32));
        (
            Control { at, geo: geometry(packed), fl_bitmap, sl_base, bl_base },
            s3.after_read32(at.wrapping_add(32)),
        )
    }

    /// Second-level bitmap of class `fl`.
    pub open spec fn sl_cell(c: Control, fl: u32) -> u32 {
        c.sl_base.wrapping_add(fl.wrapping_mul(4))
    }

    /// List to take a block from: the first nonempty one at or after `(fl, sl)`.
    pub open spec fn list_found(self, c: Control, fl: u32, sl: u32) -> (
        Option<(u32, u32)>,
        SocState,
    ) {
        let here = self.read32(SocState::sl_cell(c, fl)) & (0xFFFF_FFFFu32 << sl);
        let s1 = self.after_read32(SocState::sl_cell(c, fl));
        if here != 0 {
            (Some((fl, vstd::std_specs::bits::u32_trailing_zeros(here))), s1)
        } else {
            let above = c.fl_bitmap & (0xFFFF_FFFFu32 << ((fl + 1) as u32));
            if fl >= 31 || above == 0 {
                (None, s1)
            } else {
                let f = vstd::std_specs::bits::u32_trailing_zeros(above);
                let map = s1.read32(SocState::sl_cell(c, f));
                let s2 = s1.after_read32(SocState::sl_cell(c, f));
                if map == 0 {
                    (None, s2)
                } else {
                    (Some((f, vstd::std_specs::bits::u32_trailing_zeros(map))), s2)
                }
            }
        }
    }

    /// Block to take for a block size; none where the lists have none, or it
    /// is not free, or too small. Its size word comes along.
    pub open spec fn block_found(self, c: Control, size: u32) -> (
        Option<(Choice, u32)>,
        SocState,
    ) {
        match c.geo.class(size) {
            None => (None, self),
            Some((fl, sl)) => {
                let (list, s1) = self.list_found(c, fl, sl);
                match list {
                    None => (None, s1),
                    Some((f, l)) => {
                        let cell = c.geo.head_cell(c.bl_base, f, l);
                        let block = s1.read32(cell);
                        let s2 = s1.after_read32(cell);
                        if block == 0 {
                            (None, s2)
                        } else {
                            let word = s2.read32(block.wrapping_add(4));
                            let s3 = s2.after_read32(block.wrapping_add(4));
                            if word & 1 == 0 || word & !3u32 < size {
                                (None, s3)
                            } else {
                                (Some((Choice { fl: f, sl: l, block }, word)), s3)
                            }
                        }
                    },
                }
            },
        }
    }

    /// The block leaves its free list.
    pub open spec fn block_removed(self, c: Control, ch: Choice) -> SocState {
        let prev = self.read32(ch.block.wrapping_add(8));
        let s1 = self.after_read32(ch.block.wrapping_add(8));
        let next = s1.read32(ch.block.wrapping_add(12));
        let s2 = s1.after_read32(ch.block.wrapping_add(12)).write32(
            next.wrapping_add(8),
            prev,
        ).write32(prev.wrapping_add(12), next);
        let cell = c.geo.head_cell(c.bl_base, ch.fl, ch.sl);
        let head = s2.read32(cell);
        let s3 = s2.after_read32(cell);
        if head == ch.block {
            s3.write32(cell, next)
        } else {
            s3
        }
    }

    /// The free block `rem` of `remain` bytes enters the list `(fl, sl)`.
    pub open spec fn block_inserted(self, c: Control, rem: u32, fl: u32, sl: u32) -> SocState {
        let cell = c.geo.head_cell(c.bl_base, fl, sl);
        let cur = self.read32(cell);
        let s1 = self.after_read32(cell).write32(rem.wrapping_add(12), cur).write32(
            rem.wrapping_add(8),
            c.at,
        ).write32(cur.wrapping_add(8), rem).write32(cell, rem);
        let map = s1.read32(SocState::sl_cell(c, fl));
        s1.after_read32(SocState::sl_cell(c, fl)).write32(
            SocState::sl_cell(c, fl),
            map | (1u32 << sl),
        ).write32(c.at.wrapping_add(24), c.fl_bitmap | (1u32 << fl))
    }

    /// The block is cut to `size`, and the rest becomes a free block.
    pub open spec fn block_split(
        self,
        c: Control,
        block: u32,
        word: u32,
        size: u32,
        fl: u32,
        sl: u32,
    ) -> SocState {
        let bsize = word & !3u32;
        let rem = block.wrapping_add(4).wrapping_add(size);
        let remain = bsize.wrapping_sub(size.wrapping_add(4));
        let rem_next = rem.wrapping_add(4).wrapping_add(remain);
        let s1 = self.write32(block.wrapping_add(4), size | (word & 3)).write32(rem_next, rem);
        let flags = s1.read32(rem_next.wrapping_add(4));
        let s2 = s1.after_read32(rem_next.wrapping_add(4)).write32(
            rem_next.wrapping_add(4),
            flags | 2,
        ).write32(rem.wrapping_add(4), remain | 1).write32(
            block.wrapping_add(4).wrapping_add(bsize),
            block,
        ).write32(rem.wrapping_add(4), remain | 1);
        s2.block_inserted(c, rem, fl, sl)
    }

    /// The rest of a block that is large enough is given back.
    pub open spec fn block_trimmed(self, c: Control, block: u32, word: u32, size: u32) -> SocState {
        let bsize = word & !3u32;
        if bsize >= size + 20 {
            match c.geo.class((bsize - (size + 4)) as u32) {
                Some((fl, sl)) => if fl < 32 {
                    self.block_split(c, block, word, size, fl, sl)
                } else {
                    self
                },
                None => self,
            }
        } else {
            self
        }
    }

    /// The block is in use, and so its neighbour is told.
    pub open spec fn block_used(self, block: u32) -> SocState {
        let size = self.read32(block.wrapping_add(4)) & !3u32;
        let s1 = self.after_read32(block.wrapping_add(4));
        let next = block.wrapping_add(4).wrapping_add(size);
        let flags = s1.read32(next.wrapping_add(4));
        let s2 = s1.after_read32(next.wrapping_add(4)).write32(
            next.wrapping_add(4),
            flags & !2u32,
        );
        let word = s2.read32(block.wrapping_add(4));
        s2.after_read32(block.wrapping_add(4)).write32(
            block.wrapping_add(4),
            (word & !3u32) & !1u32,
        )
    }

    /// The block's owner word names the task that runs on the first core, where
    /// that is known.
    pub open spec fn block_owned(self, block: u32) -> SocState {
        let ptr = block.wrapping_add(8);
        match self.host.pxcur {
            Some(cell) => {
                let owner = self.read32(cell);
                self.after_read32(cell).write32(
                    ptr,
                    if crate::soc::rtos::in_dram(owner) {
                        owner
                    } else {
                        0
                    },
                )
            },
            None => self.write32(ptr, 0),
        }
    }

    /// `user_bytes` are allocated; the user pointer comes first, 0 where there
    /// is no heap, no room, or a heap that cannot be read.
    pub open spec fn carved(self, user_bytes: u32) -> (u32, SocState) {
        match self.host.reg_heaps {
            None => (0, self),
            Some(list) => {
                let first = self.read32(list);
                let (handle, s1) = self.after_read32(list).heap_found(first, MAX_HEAPS as nat);
                if handle == 0 || user_bytes > MAX_REQUEST {
                    (0, s1)
                } else {
                    let (c, s2) = s1.control(handle);
                    match c.geo.rounded(words_up(user_bytes)) {
                        None => (0, s2),
                        Some(size) => {
                            let (found, s3) = s2.block_found(c, size);
                            match found {
                                None => (0, s3),
                                Some((ch, word)) => (
                                    ch.block.wrapping_add(12),
                                    s3.block_removed(c, ch).block_trimmed(
                                        c,
                                        ch.block,
                                        word,
                                        size,
                                    ).block_used(ch.block).block_owned(ch.block),
                                ),
                            }
                        },
                    }
                }
            },
        }
    }
}

fn find_log2_up(n: u32) -> (r: u32)
    ensures
        r == log2_up(n),
        r <= 6,
{
    if n <= 1 {
        0
    } else if n <= 2 {
        1
    } else if n <= 4 {
        2
    } else if n <= 8 {
        3
    } else if n <= 16 {
        4
    } else if n <= 32 {
        5
    } else {
        6
    }
}

fn unpack(packed: u32) -> (g: Geometry)
    ensures
        g == geometry(packed),
{
    let slc: u32 = (packed >> 14) & 0x3F;
    Geometry {
        fls: (packed >> 5) & 7,
        slc: slc,
        sl2: find_log2_up(slc),
        small: (packed >> 23) & 0xFF,
    }
}

/// A single set bit is at least one.
proof fn lemma_shifted_one(k: u32)
    requires
        k < 32,
    ensures
        1u32 << k >= 1,
{
    crate::bits::lemma_set_bit(0, 0, k);
}

impl Geometry {
    /// What the packed word guarantees.
    pub open spec fn unpacked(self) -> bool {
        self.sl2 <= 6 && self.fls <= 7 && self.slc <= 0x3F && self.small <= 0xFF
    }

    fn round_up(&self, need: u32) -> (r: Option<u32>)
        requires
            self.unpacked(),
            need > 0,
        ensures
            r == self.rounded(need),
    {
        if need < self.small {
            return Some(need);
        }
        broadcast use vstd::std_specs::bits::group_bits_axioms;

        let f: u32 = 31 - need.leading_zeros();
        if f < self.sl2 {
            return None;
        }
        let round: u32 = 1u32 << (f - self.sl2);
        proof {
            lemma_shifted_one((f - self.sl2) as u32);
        }
        if round > u32::MAX - need {
            return None;
        }
        Some((need + (round - 1)) & !(round - 1))
    }

    fn find_class(&self, size: u32) -> (r: Option<(u32, u32)>)
        requires
            self.unpacked(),
        ensures
            r == self.class(size),
            r matches Some(x) ==> x.0 <= 32 && x.1 < 32,
    {
        if size == 0 {
            return None;
        }
        if size < self.small {
            if self.slc < 1 || self.slc > self.small {
                return None;
            }
            proof {
                vstd::arithmetic::div_mod::lemma_div_non_zero(self.small as int, self.slc as int);
            }
            let sl: u32 = size / (self.small / self.slc);
            if sl < 32 {
                return Some((0u32, sl));
            } else {
                return None;
            }
        }
        broadcast use vstd::std_specs::bits::group_bits_axioms;

        let f: u32 = 31 - size.leading_zeros();
        if f < self.sl2 || f + 1 < self.fls {
            return None;
        }
        let sl: u32 = (size >> (f - self.sl2)) ^ (1u32 << self.sl2);
        if sl < 32 {
            Some((f + 1 - self.fls, sl))
        } else {
            None
        }
    }
}

impl Soc {
    fn find_heap(&mut self, first: u32) -> (handle: u32)
        requires
            old(self)@.wf(),
        ensures
            (handle, final(self)@) == old(self)@.heap_found(first, MAX_HEAPS as nat),
            final(self)@.wf(),
    {
        let mut heap: u32 = first;
        let mut guard: u32 = 0;
        let ghost all = self@.heap_found(first, MAX_HEAPS as nat);
        while heap != 0 && guard < MAX_HEAPS
            invariant
                guard <= MAX_HEAPS,
                self@.wf(),
                all == self@.heap_found(heap, (MAX_HEAPS - guard) as nat),
                all == old(self)@.heap_found(first, MAX_HEAPS as nat),
            decreases MAX_HEAPS - guard,
        {
            guard = guard + 1;
            let caps: u32 = self.read32(heap);
            if caps & HEAP_CAPS == HEAP_CAPS {
                return self.read32(heap.wrapping_add(28));
            }
            heap = self.read32(heap.wrapping_add(32));
        }
        0
    }

    fn read_control(&mut self, handle: u32) -> (c: Control)
        requires
            old(self)@.wf(),
        ensures
            (c, final(self)@) == old(self)@.control(handle),
            c.geo.unpacked(),
            final(self)@.wf(),
    {
        let at: u32 = handle.wrapping_add(20);
        let packed: u32 = self.read32(at.wrapping_add(16));
        let fl_bitmap: u32 = self.read32(at.wrapping_add(24));
        let sl_base: u32 = self.read32(at.wrapping_add(28));
        let bl_base: u32 = self.read32(at.wrapping_add(32));
        broadcast use crate::bits::lemma_and_le;

        Control { at, geo: unpack(packed), fl_bitmap, sl_base, bl_base }
    }

    fn find_list(&mut self, c: &Control, fl: u32, sl: u32) -> (r: Option<(u32, u32)>)
        requires
            old(self)@.wf(),
            fl <= 32,
            sl < 32,
        ensures
            (r, final(self)@) == old(self)@.list_found(*c, fl, sl),
            final(self)@.wf(),
    {
        let cell: u32 = c.sl_base.wrapping_add(fl.wrapping_mul(4));
        let here: u32 = self.read32(cell) & (0xFFFF_FFFFu32 << sl);
        if here != 0 {
            return Some((fl, here.trailing_zeros()));
        }
        if fl >= 31 {
            return None;
        }
        let above: u32 = c.fl_bitmap & (0xFFFF_FFFFu32 << (fl + 1));
        if above == 0 {
            return None;
        }
        let f: u32 = above.trailing_zeros();
        let map: u32 = self.read32(c.sl_base.wrapping_add(f.wrapping_mul(4)));
        if map == 0 {
            None
        } else {
            Some((f, map.trailing_zeros()))
        }
    }

    fn head_cell(c: &Control, fl: u32, sl: u32) -> (cell: u32)
        ensures
            cell == c.geo.head_cell(c.bl_base, fl, sl),
    {
        c.bl_base.wrapping_add(fl.wrapping_mul(c.geo.slc).wrapping_add(sl).wrapping_mul(4))
    }

    fn find_block(&mut self, c: &Control, size: u32) -> (r: Option<(Choice, u32)>)
        requires
            old(self)@.wf(),
            c.geo.unpacked(),
        ensures
            (r, final(self)@) == old(self)@.block_found(*c, size),
            final(self)@.wf(),
    {
        let (fl, sl) = match c.geo.find_class(size) {
            None => {
                return None;
            },
            Some(x) => x,
        };
        let (f, l) = match self.find_list(c, fl, sl) {
            None => {
                return None;
            },
            Some(x) => x,
        };
        let block: u32 = self.read32(Soc::head_cell(c, f, l));
        if block == 0 {
            return None;
        }
        let word: u32 = self.read32(block.wrapping_add(4));
        if word & 1 == 0 || word & !3u32 < size {
            None
        } else {
            Some((Choice { fl: f, sl: l, block }, word))
        }
    }

    fn remove_block(&mut self, c: &Control, ch: &Choice)
        requires
            old(self)@.wf(),
        ensures
            final(self)@ == old(self)@.block_removed(*c, *ch),
            final(self)@.wf(),
    {
        let prev: u32 = self.read32(ch.block.wrapping_add(8));
        let next: u32 = self.read32(ch.block.wrapping_add(12));
        self.write32(next.wrapping_add(8), prev);
        self.write32(prev.wrapping_add(12), next);
        let cell: u32 = Soc::head_cell(c, ch.fl, ch.sl);
        let head: u32 = self.read32(cell);
        if head == ch.block {
            self.write32(cell, next);
        }
    }

    fn insert_block(&mut self, c: &Control, rem: u32, fl: u32, sl: u32)
        requires
            old(self)@.wf(),
            fl < 32,
            sl < 32,
        ensures
            final(self)@ == old(self)@.block_inserted(*c, rem, fl, sl),
            final(self)@.wf(),
    {
        let cell: u32 = Soc::head_cell(c, fl, sl);
        let cur: u32 = self.read32(cell);
        self.write32(rem.wrapping_add(12), cur);
        self.write32(rem.wrapping_add(8), c.at);
        self.write32(cur.wrapping_add(8), rem);
        self.write32(cell, rem);
        let bits: u32 = c.sl_base.wrapping_add(fl.wrapping_mul(4));
        let map: u32 = self.read32(bits);
        self.write32(bits, map | (1u32 << sl));
        self.write32(c.at.wrapping_add(24), c.fl_bitmap | (1u32 << fl));
    }

    fn split_block(&mut self, c: &Control, block: u32, word: u32, size: u32, fl: u32, sl: u32)
        requires
            old(self)@.wf(),
            fl < 32,
            sl < 32,
        ensures
            final(self)@ == old(self)@.block_split(*c, block, word, size, fl, sl),
            final(self)@.wf(),
    {
        let bsize: u32 = word & !3u32;
        let rem: u32 = block.wrapping_add(4).wrapping_add(size);
        let remain: u32 = bsize.wrapping_sub(size.wrapping_add(4));
        let rem_next: u32 = rem.wrapping_add(4).wrapping_add(remain);
        self.write32(block.wrapping_add(4), size | (word & 3));
        self.write32(rem_next, rem);
        let flags: u32 = self.read32(rem_next.wrapping_add(4));
        self.write32(rem_next.wrapping_add(4), flags | 2);
        self.write32(rem.wrapping_add(4), remain | 1);
        self.write32(block.wrapping_add(4).wrapping_add(bsize), block);
        self.write32(rem.wrapping_add(4), remain | 1);
        self.insert_block(c, rem, fl, sl);
    }

    fn trim_block(&mut self, c: &Control, block: u32, word: u32, size: u32)
        requires
            old(self)@.wf(),
            c.geo.unpacked(),
            word & !3u32 >= size,
        ensures
            final(self)@ == old(self)@.block_trimmed(*c, block, word, size),
            final(self)@.wf(),
    {
        let bsize: u32 = word & !3u32;
        if bsize - size >= 20 {
            let remain: u32 = bsize - size - 4;
            match c.geo.find_class(remain) {
                Some((fl, sl)) => {
                    if fl < 32 {
                        self.split_block(c, block, word, size, fl, sl);
                    }
                },
                None => {},
            }
        }
    }

    fn use_block(&mut self, block: u32)
        requires
            old(self)@.wf(),
        ensures
            final(self)@ == old(self)@.block_used(block),
            final(self)@.wf(),
    {
        let size: u32 = self.read32(block.wrapping_add(4)) & !3u32;
        let next: u32 = block.wrapping_add(4).wrapping_add(size);
        let flags: u32 = self.read32(next.wrapping_add(4));
        self.write32(next.wrapping_add(4), flags & !2u32);
        let word: u32 = self.read32(block.wrapping_add(4));
        self.write32(block.wrapping_add(4), (word & !3u32) & !1u32);
    }

    fn own_block(&mut self, block: u32)
        requires
            old(self)@.wf(),
        ensures
            final(self)@ == old(self)@.block_owned(block),
            final(self)@.wf(),
    {
        let ptr: u32 = block.wrapping_add(8);
        match self.host.pxcur {
            Some(cell) => {
                let owner: u32 = self.read32(cell);
                let v: u32 = if 0x3FC8_0000 <= owner && owner < 0x3FD0_0000 {
                    owner
                } else {
                    0
                };
                self.write32(ptr, v);
            },
            None => self.write32(ptr, 0),
        }
    }

    /// Allocate `user_bytes`, the owner word included, from the firmware's heap;
    /// 0 where there is no room.
    pub fn wifi_heap_carve(&mut self, user_bytes: u32) -> (ptr: u32)
        requires
            old(self)@.wf(),
        ensures
            (ptr, final(self)@) == old(self)@.carved(user_bytes),
            final(self)@.wf(),
    {
        let list: u32 = match self.host.reg_heaps {
            Some(x) => x,
            None => {
                return 0;
            },
        };
        let first: u32 = self.read32(list);
        let handle: u32 = self.find_heap(first);
        if handle == 0 || user_bytes > MAX_REQUEST {
            return 0;
        }
        let c = self.read_control(handle);
        let whole: u32 = (user_bytes + 3) & !3u32;
        let need: u32 = if whole < 12 {
            12
        } else {
            whole
        };
        let size: u32 = match c.geo.round_up(need) {
            Some(x) => x,
            None => {
                return 0;
            },
        };
        let (ch, word) = match self.find_block(&c, size) {
            Some(x) => x,
            None => {
                return 0;
            },
        };
        self.remove_block(&c, &ch);
        self.trim_block(&c, ch.block, word, size);
        self.use_block(ch.block);
        self.own_block(ch.block);
        ch.block.wrapping_add(12)
    }
}

/// A block taken into use is neither marked free nor does its neighbour take it
/// for free; its size stays.
pub proof fn law_used_block_is_marked(s: SocState, block: u32)
    requires
        s.wf(),
        crate::soc::ram::plain(block as int, 8),
        ({
            let next = block + 4 + (s.ram32(block + 4) & !3u32);
            crate::soc::ram::plain(next, 8) && crate::soc::ram::apart(block + 4, 4, next + 4, 4)
        }),
    ensures
        ({
            let size = s.ram32(block + 4) & !3u32;
            let t = s.block_used(block);
            &&& t.ram32(block + 4) == size
            &&& t.ram32(block + 4 + size + 4) == s.ram32(block + 4 + size + 4) & !2u32
        }),
{
    let word = s.ram32(block + 4);
    let size = word & !3u32;
    let at = (block + 4) as u32;
    let next = (block + 4 + size) as u32;
    let flag_at = (next + 4) as u32;
    crate::soc::ram::lemma_plain_read32(s, at);
    crate::soc::ram::lemma_plain_read32(s, flag_at);
    let flags = s.ram32(flag_at as int) & !2u32;
    let s1 = s.write32(flag_at, flags);
    crate::soc::ram::lemma_plain_write32(s, flag_at, flags);
    crate::soc::ram::lemma_ram_store(s, flag_at, flags, at as int);
    crate::soc::ram::lemma_ram_store(s, flag_at, flags, flag_at as int);
    crate::soc::ram::lemma_plain_read32(s1, at);
    assert((word & !3u32) & !1u32 == word & !3u32) by (bit_vector);
    let s2 = s1.write32(at, size);
    assert(s2 == s.block_used(block));
    crate::soc::ram::lemma_ram_store(s1, at, size, at as int);
    crate::soc::ram::lemma_ram_store(s1, at, size, flag_at as int);
}

/// Without a known heap nothing is allocated and nothing changes.
pub proof fn law_no_heap_no_allocation(s: SocState, user_bytes: u32)
    requires
        s.host.reg_heaps is None,
    ensures
        s.carved(user_bytes) == (0u32, s),
{
}

} // verus!
