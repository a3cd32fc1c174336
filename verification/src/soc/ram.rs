//! Accesses to the firmware's ordinary data memory, and what the host's edits of
//! scheduler structures there amount to.

use super::SocState;
use crate::memmap::DRAM_BASE;
use crate::memory::MemState;
use vstd::prelude::*;

verus! {

broadcast use crate::soc::sizes::lemma_sized;

/// End of the data memory that has neither console hook cells nor event blocks.
pub const PLAIN_END: u32 = 0x3FCE_F700;

/// `n` bytes of ordinary data memory start at `a`.
pub open spec fn plain(a: int, n: int) -> bool {
    DRAM_BASE <= a && a + n <= PLAIN_END
}

/// Two byte ranges do not meet.
pub open spec fn apart(a: int, n: int, b: int, m: int) -> bool {
    a + n <= b || b + m <= a
}

impl SocState {
    /// Byte of ordinary data memory.
    pub open spec fn ram8(self, a: int) -> u8 {
        self.mem.sram[a - DRAM_BASE]
    }

    /// Word of ordinary data memory.
    pub open spec fn ram32(self, a: int) -> u32 {
        crate::bytes::word_at(self.mem.sram, a - DRAM_BASE)
    }

    /// The chip with other data memory.
    pub open spec fn with_sram(self, sram: Seq<u8>) -> SocState {
        SocState { mem: MemState { sram: sram, ..self.mem }, ..self }
    }
}

/// A byte store to ordinary memory stores the byte and does nothing else.
pub proof fn lemma_plain_write8(s: SocState, a: u32, v: u32)
    requires
        s.wf(),
        plain(a as int, 1),
    ensures
        s.write8(a, v) == s.with_sram(
            s.mem.sram.update(a - DRAM_BASE, crate::bytes::byte_lane(v, 0)),
        ),
        s.write8(a, v).wf(),
{
    reveal(SocState::wf);
    reveal(SocState::write8);
}

/// A word store to ordinary memory stores the word and does nothing else.
pub proof fn lemma_plain_write32(s: SocState, a: u32, v: u32)
    requires
        s.wf(),
        plain(a as int, 4),
    ensures
        s.write32(a, v) == s.with_sram(
            crate::bytes::with_word(s.mem.sram, a - DRAM_BASE, v),
        ),
        s.write32(a, v).wf(),
{
    reveal(SocState::wf);
    reveal(SocState::write32);
    crate::memory::law_word_store_keeps_sizes(s.mem, a, v);
    lemma_storing32(s.mem, a, v);
}

pub proof fn lemma_storing32(m: MemState, a: u32, v: u32)
    requires
        m.wf(),
        plain(a as int, 4),
    ensures
        m.storing32(a, v) == (MemState {
            sram: crate::bytes::with_word(m.sram, a - DRAM_BASE, v),
            ..m
        }),
{
    let b0 = crate::bytes::byte_lane(v, 0);
    let b1 = crate::bytes::byte_lane(v, 1);
    let b2 = crate::bytes::byte_lane(v, 2);
    let b3 = crate::bytes::byte_lane(v, 3);
    let m0 = m.storing8(a, b0);
    let m1 = m0.storing8(a.wrapping_add(1), b1);
    let m2 = m1.storing8(a.wrapping_add(2), b2);
    let m3 = m2.storing8(a.wrapping_add(3), b3);
    lemma_storing8(m, a, b0);
    lemma_storing8(m0, a.wrapping_add(1), b1);
    lemma_storing8(m1, a.wrapping_add(2), b2);
    lemma_storing8(m2, a.wrapping_add(3), b3);
    assert(m.storing32(a, v) == m3);
    assert(m3.sram =~= crate::bytes::with_word(m.sram, a - DRAM_BASE, v));
}

proof fn lemma_storing8(m: MemState, a: u32, v: u8)
    requires
        m.wf(),
        plain(a as int, 1),
    ensures
        m.storing8(a, v) == (MemState { sram: m.sram.update(a - DRAM_BASE, v), ..m }),
        m.storing8(a, v).wf(),
{
}

/// A word load from ordinary memory gives the word and changes nothing.
pub proof fn lemma_plain_read32(s: SocState, a: u32)
    requires
        s.wf(),
        plain(a as int, 4),
    ensures
        s.read32(a) == s.ram32(a as int),
        s.after_read32(a) == s,
{
    reveal(SocState::wf);
    reveal(SocState::read32);
    reveal(SocState::after_read32);
}

/// A byte load from ordinary memory gives the byte and changes nothing.
pub proof fn lemma_plain_read8(s: SocState, a: u32)
    requires
        s.wf(),
        plain(a as int, 1),
    ensures
        s.read8(a) == s.ram8(a as int),
        s.after_read8(a) == s,
{
    reveal(SocState::wf);
    reveal(SocState::read8);
    reveal(SocState::after_read8);
}

/// What a word store does to the words and bytes of ordinary memory.
pub proof fn lemma_ram_store(s: SocState, a: u32, v: u32, b: int)
    requires
        s.wf(),
        plain(a as int, 4),
        plain(b, 4),
        b == a || apart(a as int, 4, b, 4),
    ensures
        s.write32(a, v).ram32(b) == if b == a {
            v
        } else {
            s.ram32(b)
        },
{
    reveal(SocState::wf);
    lemma_plain_write32(s, a, v);
    if b == a {
        crate::bytes::lemma_word_read_back(s.mem.sram, a - DRAM_BASE, v);
    }
}

/// The neighbours of an item taken out of a list are linked to each other, the
/// list counts one item less, and the item belongs to no list.
pub proof fn law_unlink(s: SocState, item: u32, next: u32, prev: u32, list: u32)
    requires
        s.wf(),
        plain(item as int, 20),
        plain(next as int, 20),
        plain(prev as int, 20),
        plain(list as int, 4),
        apart(list as int, 4, prev as int, 20),
        apart(list as int, 4, next as int, 20),
        apart(list as int, 4, item as int, 20),
        apart(item as int, 20, prev as int, 20),
        apart(item as int, 20, next as int, 20),
        next == prev || apart(next as int, 20, prev as int, 20),
    ensures
        s.unlinked(item, next, prev, list).ram32(prev + 4) == next,
        s.unlinked(item, next, prev, list).ram32(next + 8) == prev,
        s.unlinked(item, next, prev, list).ram32(list as int) == s.ram32(
            list as int,
        ).wrapping_sub(1),
        s.unlinked(item, next, prev, list).ram32(item + 16) == 0,
{
    let s1 = s.write32((prev + 4) as u32, next);
    lemma_plain_write32(s, (prev + 4) as u32, next);
    let s2 = s1.write32((next + 8) as u32, prev);
    lemma_plain_write32(s1, (next + 8) as u32, prev);
    lemma_plain_read32(s2, list);
    let n = s2.read32(list).wrapping_sub(1);
    let s3 = s2.write32(list, n);
    lemma_plain_write32(s2, list, n);
    let s4 = s3.write32((item + 16) as u32, 0);
    assert(s4 == s.unlinked(item, next, prev, list));
    lemma_ram_store(s, (prev + 4) as u32, next, prev + 4);
    lemma_ram_store(s, (prev + 4) as u32, next, list as int);
    lemma_ram_store(s1, (next + 8) as u32, prev, prev + 4);
    lemma_ram_store(s1, (next + 8) as u32, prev, next + 8);
    lemma_ram_store(s1, (next + 8) as u32, prev, list as int);
    lemma_ram_store(s2, list, n, prev + 4);
    lemma_ram_store(s2, list, n, next + 8);
    lemma_ram_store(s2, list, n, list as int);
    lemma_ram_store(s3, (item + 16) as u32, 0, prev + 4);
    lemma_ram_store(s3, (item + 16) as u32, 0, next + 8);
    lemma_ram_store(s3, (item + 16) as u32, 0, list as int);
    lemma_ram_store(s3, (item + 16) as u32, 0, item + 16);
}

/// Ring position `k` bytes after `wr`.
pub open spec fn ring_pos(wr: int, head: int, tail: int, k: int) -> int {
    head + (wr - head + k) % (tail - head)
}

/// The first `n` bytes of an item go to consecutive ring positions, and no byte
/// outside the storage changes.
proof fn lemma_ring(s: SocState, wr: u32, head: u32, tail: u32, item: Seq<u8>, n: nat)
    requires
        s.wf(),
        plain(head as int, tail - head),
        head <= wr < tail,
        n <= item.len() <= tail - head,
    ensures
        ({
            let (w, t) = s.ring_written(wr, head, tail, item, n);
            &&& t.wf()
            &&& w == ring_pos(wr as int, head as int, tail as int, n as int)
            &&& t == s.with_sram(t.mem.sram)
            &&& t.mem.sram.len() == s.mem.sram.len()
            &&& forall|k: int|
                0 <= k < n ==> t.ram8(
                    #[trigger] ring_pos(wr as int, head as int, tail as int, k),
                ) == item[k]
            &&& forall|i: int|
                0 <= i < s.mem.sram.len() && (DRAM_BASE + i < head || tail <= DRAM_BASE + i)
                    ==> #[trigger] t.mem.sram[i] == s.mem.sram[i]
        }),
    decreases n,
{
    let size = tail - head;
    if n == 0 {
        assert((wr - head) % size == wr - head) by (nonlinear_arith)
            requires
                0 <= wr - head < size,
        ;
    } else {
        let m = (n - 1) as nat;
        lemma_ring(s, wr, head, tail, item, m);
        let (w, t) = s.ring_written(wr, head, tail, item, m);
        let v = item[n - 1];
        lemma_pos_range(wr as int, head as int, tail as int, m as int);
        lemma_plain_write8(t, w, v as u32);
        lemma_low_lane(v);
        let t1 = t.write8(w, v as u32);
        lemma_pos_next(wr as int, head as int, tail as int, m as int);
        reveal(SocState::wf);
        assert forall|k: int| 0 <= k < n implies t1.ram8(
            #[trigger] ring_pos(wr as int, head as int, tail as int, k),
        ) == item[k] by {
            lemma_pos_range(wr as int, head as int, tail as int, k);
            if k < m {
                lemma_pos_differ(wr as int, head as int, tail as int, k, m as int);
            }
        }
    }
}

proof fn lemma_pos_range(wr: int, head: int, tail: int, k: int)
    requires
        head < tail,
    ensures
        head <= ring_pos(wr, head, tail, k) < tail,
{
    let size = tail - head;
    assert(0 <= (wr - head + k) % size < size) by (nonlinear_arith)
        requires
            size > 0,
    ;
}

proof fn lemma_pos_next(wr: int, head: int, tail: int, k: int)
    requires
        head < tail,
    ensures
        ring_pos(wr, head, tail, k + 1) == if ring_pos(wr, head, tail, k) + 1 >= tail {
            head
        } else {
            ring_pos(wr, head, tail, k) + 1
        },
{
    let size = tail - head;
    let x = wr - head + k;
    vstd::arithmetic::div_mod::lemma_fundamental_div_mod(x, size);
    let q = x / size;
    let r = x % size;
    lemma_pos_range(wr, head, tail, k);
    if r + 1 == size {
        assert(x + 1 == size * (q + 1) + 0) by (nonlinear_arith)
            requires
                x == size * q + r,
                r + 1 == size,
        ;
        vstd::arithmetic::div_mod::lemma_fundamental_div_mod_converse(x + 1, size, q + 1, 0);
    } else {
        vstd::arithmetic::div_mod::lemma_fundamental_div_mod_converse(x + 1, size, q, r + 1);
    }
}

proof fn lemma_pos_differ(wr: int, head: int, tail: int, j: int, k: int)
    requires
        head < tail,
        j < k < j + (tail - head),
    ensures
        ring_pos(wr, head, tail, j) != ring_pos(wr, head, tail, k),
{
    let size = tail - head;
    let x = wr - head + j;
    let y = wr - head + k;
    if x % size == y % size {
        vstd::arithmetic::div_mod::lemma_fundamental_div_mod(x, size);
        vstd::arithmetic::div_mod::lemma_fundamental_div_mod(y, size);
        let d = y / size - x / size;
        assert(size * d == y - x) by (nonlinear_arith)
            requires
                x == size * (x / size) + x % size,
                y == size * (y / size) + y % size,
                x % size == y % size,
                d == y / size - x / size,
        ;
        assert(false) by (nonlinear_arith)
            requires
                size * d == y - x,
                0 < y - x < size,
        ;
    }
}

/// A queue in ordinary memory that has room takes an item of its item size: the
/// item stands in the ring from the old write position on, the write position
/// moves past it, and one more message waits.
pub proof fn law_posted_item_is_queued(s: SocState, queue: u32, item: Seq<u8>)
    requires
        s.wf(),
        plain(queue as int, 68),
        s.ram32(queue + 56) < s.ram32(queue + 60),
        s.ram32(queue + 64) == item.len(),
        item.len() > 0,
        plain(s.ram32(queue as int) as int, s.ram32(queue + 8) - s.ram32(queue as int)),
        s.ram32(queue as int) <= s.ram32(queue + 4) < s.ram32(queue + 8),
        item.len() <= s.ram32(queue + 8) - s.ram32(queue as int),
        apart(
            queue as int,
            68,
            s.ram32(queue as int) as int,
            s.ram32(queue + 8) - s.ram32(queue as int),
        ),
    ensures
        s.posted(queue, item).0,
        ({
            let t = s.posted(queue, item).1;
            let head = s.ram32(queue as int) as int;
            let tail = s.ram32(queue + 8) as int;
            let wr = s.ram32(queue + 4) as int;
            &&& forall|k: int|
                0 <= k < item.len() ==> t.ram8(#[trigger] ring_pos(wr, head, tail, k)) == item[k]
            &&& t.ram32(queue + 4) == ring_pos(wr, head, tail, item.len() as int)
            &&& t.ram32(queue + 56) == s.ram32(queue + 56) + 1
            &&& t.ram32(queue as int) == head
            &&& t.ram32(queue + 8) == tail
            &&& t.ram32(queue + 60) == s.ram32(queue + 60)
            &&& t.ram32(queue + 64) == s.ram32(queue + 64)
        }),
{
    let head = s.ram32(queue as int);
    let tail = s.ram32(queue + 8);
    let wr = s.ram32(queue + 4);
    let mw = s.ram32(queue + 56);
    lemma_plain_read32(s, (queue + 60) as u32);
    lemma_plain_read32(s, (queue + 64) as u32);
    lemma_plain_read32(s, (queue + 56) as u32);
    lemma_plain_read32(s, queue);
    lemma_plain_read32(s, (queue + 8) as u32);
    lemma_plain_read32(s, (queue + 4) as u32);
    lemma_ring(s, wr, head, tail, item, item.len());
    let (w, t0) = s.ring_written(wr, head, tail, item, item.len());
    reveal(SocState::wf);
    assert forall|b: int| plain(b, 4) && queue <= b && b + 4 <= queue + 68 implies #[trigger] t0.ram32(
        b,
    ) == s.ram32(b) by {
        assert(t0.mem.sram[b - DRAM_BASE] == s.mem.sram[b - DRAM_BASE]);
        assert(t0.mem.sram[b - DRAM_BASE + 1] == s.mem.sram[b - DRAM_BASE + 1]);
        assert(t0.mem.sram[b - DRAM_BASE + 2] == s.mem.sram[b - DRAM_BASE + 2]);
        assert(t0.mem.sram[b - DRAM_BASE + 3] == s.mem.sram[b - DRAM_BASE + 3]);
    }
    let t1 = t0.write32((queue + 4) as u32, w);
    lemma_plain_write32(t0, (queue + 4) as u32, w);
    let t2 = t1.write32((queue + 56) as u32, (mw + 1) as u32);
    lemma_plain_write32(t1, (queue + 56) as u32, (mw + 1) as u32);
    assert(t2 == s.posted(queue, item).1);
    assert forall|b: int|
        plain(b, 4) && queue <= b && b + 4 <= queue + 68 && (b - queue) % 4 == 0 implies #[trigger] t2.ram32(
        b,
    ) == if b == queue + 4 {
        w
    } else if b == queue + 56 {
        (mw + 1) as u32
    } else {
        s.ram32(b)
    } by {
        assert(t0.ram32(b) == s.ram32(b));
        lemma_ram_store(t0, (queue + 4) as u32, w, b);
        lemma_ram_store(t1, (queue + 56) as u32, (mw + 1) as u32, b);
    }
    assert forall|k: int| 0 <= k < item.len() implies t2.ram8(
        #[trigger] ring_pos(wr as int, head as int, tail as int, k),
    ) == item[k] by {
        lemma_pos_range(wr as int, head as int, tail as int, k);
        let i = ring_pos(wr as int, head as int, tail as int, k) - DRAM_BASE;
        crate::bytes::lemma_word_store_frame(t0.mem.sram, queue + 4 - DRAM_BASE, w, i);
        crate::bytes::lemma_word_store_frame(
            t1.mem.sram,
            queue + 56 - DRAM_BASE,
            (mw + 1) as u32,
            i,
        );
    }
}

/// Bytes written to ordinary memory stand there, and no other byte changes.
pub proof fn lemma_bytes_written(s: SocState, base: u32, bytes: Seq<u8>, n: nat)
    requires
        s.wf(),
        n <= bytes.len(),
        plain(base as int, n as int),
    ensures
        s.bytes_written(base, bytes, n).wf(),
        s.bytes_written(base, bytes, n) == s.with_sram(s.bytes_written(base, bytes, n).mem.sram),
        s.bytes_written(base, bytes, n).mem.sram.len() == s.mem.sram.len(),
        forall|k: int|
            #![trigger bytes[k]]
            0 <= k < n ==> s.bytes_written(base, bytes, n).ram8(base + k) == bytes[k],
        forall|i: int|
            0 <= i < s.mem.sram.len() && (DRAM_BASE + i < base || base + n <= DRAM_BASE + i)
                ==> #[trigger] s.bytes_written(base, bytes, n).mem.sram[i] == s.mem.sram[i],
    decreases n,
{
    if n > 0 {
        let m = (n - 1) as nat;
        lemma_bytes_written(s, base, bytes, m);
        let t = s.bytes_written(base, bytes, m);
        let v = bytes[n - 1];
        lemma_plain_write8(t, (base + m) as u32, v as u32);
        lemma_low_lane(v);
        reveal(SocState::wf);
    }
}

proof fn lemma_low_lane(v: u8)
    ensures
        crate::bytes::byte_lane(v as u32, 0) == v,
{
    assert(((v as u32 >> 0u32) & 0xFF) as u8 == v) by (bit_vector);
}

/// Bytes copied between two places of ordinary memory that do not meet arrive,
/// and no other byte changes.
pub proof fn lemma_bytes_copied(s: SocState, from: u32, to: u32, n: nat)
    requires
        s.wf(),
        plain(from as int, n as int),
        plain(to as int, n as int),
        apart(from as int, n as int, to as int, n as int),
    ensures
        s.bytes_copied(from, to, n).wf(),
        s.bytes_copied(from, to, n) == s.with_sram(s.bytes_copied(from, to, n).mem.sram),
        s.bytes_copied(from, to, n).mem.sram.len() == s.mem.sram.len(),
        forall|k: int|
            #![trigger s.ram8(from + k)]
            0 <= k < n ==> s.bytes_copied(from, to, n).ram8(to + k) == s.ram8(from + k),
        forall|i: int|
            0 <= i < s.mem.sram.len() && (DRAM_BASE + i < to || to + n <= DRAM_BASE + i)
                ==> #[trigger] s.bytes_copied(from, to, n).mem.sram[i] == s.mem.sram[i],
    decreases n,
{
    if n > 0 {
        let m = (n - 1) as nat;
        lemma_bytes_copied(s, from, to, m);
        let t = s.bytes_copied(from, to, m);
        let a = (from + m) as u32;
        lemma_plain_read8(t, a);
        let v = t.ram8(a as int);
        reveal(SocState::wf);
        assert(t.mem.sram[a - DRAM_BASE] == s.mem.sram[a - DRAM_BASE]);
        lemma_plain_write8(t, (to + m) as u32, v as u32);
        lemma_low_lane(v);
        assert forall|k: int| #![trigger s.ram8(from + k)] 0 <= k < n implies s.bytes_copied(
            from,
            to,
            n,
        ).ram8(to + k) == s.ram8(from + k) by {
            if k < m {
                assert(t.ram8(to + k) == s.ram8(from + k));
            }
        }
    }
}

/// Memory to memory along one pair of descriptors: the destination holds the
/// source bytes, as many as both descriptors allow, both descriptors are handed
/// back, and the source descriptor is reported.
pub proof fn law_memory_is_copied(s: SocState, from: u32, to: u32, fuel: nat, k: int)
    requires
        s.wf(),
        fuel > 0,
        plain(from as int, 12),
        plain(to as int, 12),
        apart(from as int, 12, to as int, 12),
        s.descriptor(from).0.owned(),
        s.descriptor(to).0.owned(),
        s.descriptor(from).0.last(),
        s.descriptor(to).0.len() <= s.descriptor(from).0.len(),
        plain(s.descriptor(from).0.buf as int, s.descriptor(to).0.len() as int),
        plain(s.descriptor(to).0.buf as int, s.descriptor(to).0.len() as int),
        apart(
            s.descriptor(from).0.buf as int,
            s.descriptor(to).0.len() as int,
            s.descriptor(to).0.buf as int,
            s.descriptor(to).0.len() as int,
        ),
        apart(
            from as int,
            12,
            s.descriptor(to).0.buf as int,
            s.descriptor(to).0.len() as int,
        ),
        apart(
            to as int,
            12,
            s.descriptor(to).0.buf as int,
            s.descriptor(to).0.len() as int,
        ),
        0 <= k < s.descriptor(to).0.len(),
    ensures
        s.chains_copied(from, to, None, fuel).0 == Some(from),
        s.chains_copied(from, to, None, fuel).1.ram8(s.descriptor(to).0.buf + k) == s.ram8(
            s.descriptor(from).0.buf + k,
        ),
        s.chains_copied(from, to, None, fuel).1.ram32(from as int) == s.ram32(from as int)
            & crate::soc::dma::OWNER_CLEAR,
        s.chains_copied(from, to, None, fuel).1.ram32(to as int) == s.ram32(to as int)
            & crate::soc::dma::OWNER_CLEAR,
{
    lemma_descriptor(s, from);
    lemma_descriptor(s, to);
    let o = s.descriptor(from).0;
    let i = s.descriptor(to).0;
    let n = i.len();
    lemma_bytes_copied(s, o.buf, i.buf, n as nat);
    let t = s.bytes_copied(o.buf, i.buf, n as nat);
    let c0 = o.control & crate::soc::dma::OWNER_CLEAR;
    let c1 = i.control & crate::soc::dma::OWNER_CLEAR;
    let t1 = t.write32(from, c0);
    lemma_plain_write32(t, from, c0);
    let t2 = t1.write32(to, c1);
    lemma_plain_write32(t1, to, c1);
    lemma_ram_store(t, from, c0, from as int);
    lemma_ram_store(t1, to, c1, from as int);
    lemma_ram_store(t1, to, c1, to as int);
    assert(s.chains_copied(from, to, None, fuel) == (Some(from), t2));
    reveal(SocState::wf);
    let j = i.buf + k - DRAM_BASE;
    assert(s.ram8(o.buf + k) == t.ram8(i.buf + k));
    crate::bytes::lemma_word_store_frame(t.mem.sram, from - DRAM_BASE, c0, j);
    crate::bytes::lemma_word_store_frame(t1.mem.sram, to - DRAM_BASE, c1, j);
}

proof fn lemma_descriptor(s: SocState, at: u32)
    requires
        s.wf(),
        plain(at as int, 12),
    ensures
        s.descriptor(at).1 == s,
        s.descriptor(at).0.control == s.ram32(at as int),
{
    lemma_plain_read32(s, at);
    lemma_plain_read32(s, (at + 4) as u32);
    lemma_plain_read32(s, (at + 8) as u32);
}

/// A task made ready is the last of its list: it stands between the former last
/// item and the end marker, it belongs to the list, and the list counts one item
/// more.
#[verifier::spinoff_prover]
#[verifier::rlimit(60)]
pub proof fn law_ready_task_is_last(s: SocState, owner: u32, lists: u32, top: u32)
    requires
        s.wf(),
        plain(owner as int, 48),
        s.ram32(owner + 44) <= 25,
        plain(lists + 20 * s.ram32(owner + 44), 20),
        plain(lists as int, 20),
        plain(top as int, 4),
        ({
            let list = lists + 20 * s.ram32(owner + 44);
            let prev = s.ram32(list + 16);
            &&& prev == list + 8 || (plain(prev as int, 20) && apart(prev as int, 20, list, 20)
                && apart(prev as int, 20, owner as int, 48) && apart(
                prev as int,
                20,
                top as int,
                4,
            ))
            &&& apart(list, 20, owner as int, 48)
            &&& apart(list, 20, top as int, 4)
            &&& apart(owner as int, 48, top as int, 4)
        }),
    ensures
        ({
            let list = lists + 20 * s.ram32(owner + 44);
            let prev = s.ram32(list + 16);
            let t = s.ready_linked(owner, lists, top).1;
            &&& t.ram32(list + 16) == owner + 4
            &&& t.ram32(prev + 4) == owner + 4
            &&& t.ram32(owner + 8) == list + 8
            &&& t.ram32(owner + 12) == prev
            &&& t.ram32(owner + 20) == list
            &&& t.ram32(list) == s.ram32(list).wrapping_add(1)
        }),
{
    let prio = s.ram32(owner + 44);
    let list = (lists + 20 * prio) as u32;
    let end = (list + 8) as u32;
    let item = (owner + 4) as u32;
    lemma_plain_read32(s, (owner + 44) as u32);
    lemma_plain_read32(s, (end + 8) as u32);
    let prev = s.ram32(end + 8);
    let s1 = s.write32((item + 4) as u32, end);
    lemma_plain_write32(s, (item + 4) as u32, end);
    let s2 = s1.write32((item + 8) as u32, prev);
    lemma_plain_write32(s1, (item + 8) as u32, prev);
    let s3 = s2.write32((prev + 4) as u32, item);
    lemma_plain_write32(s2, (prev + 4) as u32, item);
    let s4 = s3.write32((end + 8) as u32, item);
    lemma_plain_write32(s3, (end + 8) as u32, item);
    let s5 = s4.write32(item, 0);
    lemma_plain_write32(s4, item, 0);
    let s6 = s5.write32((item + 16) as u32, list);
    lemma_plain_write32(s5, (item + 16) as u32, list);
    assert(prio.wrapping_mul(20) == prio * 20);
    assert(s6 == s.appended(item, end, prev, list));
    lemma_plain_read32(s6, list);
    let n = s6.ram32(list as int).wrapping_add(1);
    let s7 = s6.write32(list, n);
    lemma_plain_write32(s6, list, n);
    lemma_plain_read32(s7, top);
    let s8 = if prio > s7.ram32(top as int) {
        s7.write32(top, prio)
    } else {
        s7
    };
    lemma_plain_write32(s7, top, prio);
    assert(s8 == s.ready_linked(owner, lists, top).1);
    assert forall|b: int|
        plain(b, 4) && (b == end + 8 || b == prev + 4 || b == item + 4 || b == item + 8 || b == item
            + 16 || b == list) implies #[trigger] s8.ram32(b) == (if b == end + 8 || b == prev + 4 {
        item
    } else if b == item + 4 {
        end
    } else if b == item + 8 {
        prev
    } else if b == item + 16 {
        list
    } else {
        s.ram32(list as int).wrapping_add(1)
    }) by {
        lemma_ram_store(s, (item + 4) as u32, end, b);
        lemma_ram_store(s1, (item + 8) as u32, prev, b);
        lemma_ram_store(s2, (prev + 4) as u32, item, b);
        lemma_ram_store(s3, (end + 8) as u32, item, b);
        lemma_ram_store(s4, item, 0, b);
        lemma_ram_store(s5, (item + 16) as u32, list, b);
        lemma_ram_store(s6, list, n, b);
        lemma_ram_store(s7, top, prio, b);
        lemma_ram_store(s, (item + 4) as u32, end, list as int);
        lemma_ram_store(s1, (item + 8) as u32, prev, list as int);
        lemma_ram_store(s2, (prev + 4) as u32, item, list as int);
        lemma_ram_store(s3, (end + 8) as u32, item, list as int);
        lemma_ram_store(s4, item, 0, list as int);
        lemma_ram_store(s5, (item + 16) as u32, list, list as int);
    }
    assert(s8.ram32(end + 8) == item);
    assert(s8.ram32(prev + 4) == item);
    assert(s8.ram32(item + 4) == end);
    assert(s8.ram32(item + 8) == prev);
    assert(s8.ram32(item + 16) == list);
    assert(s8.ram32(list as int) == s.ram32(list as int).wrapping_add(1));
}

/// A post that is refused because the waiting task is not there changes nothing,
/// so it can be tried again at any time.
pub proof fn law_refused_post_changes_nothing(
    s: SocState,
    base_var: u32,
    id: u32,
    payload: Seq<u8>,
)
    requires
        s.wf(),
        plain(base_var as int, 4),
        s.event_queue() != 0,
        plain(s.event_queue() as int, 68),
        !s.recv_waiting(s.event_queue()),
    ensures
        s.event_posted(base_var, id) == (None::<u32>, s),
        s.event_data_posted(base_var, id, payload) == (None::<u32>, s),
{
    let q = s.event_queue();
    lemma_plain_read32(s, (q + 64) as u32);
    lemma_plain_read32(s, base_var);
    lemma_plain_read32(s, (q + 48) as u32);
}

/// The same holds of the application event queue; no event block is used up.
pub proof fn law_refused_application_post(
    s: SocState,
    id: u32,
    info: Seq<u8>,
    lists: u32,
    top: u32,
)
    requires
        s.wf(),
        s.host.ard_queue matches Some(q) && q != 0 && plain(q as int, 68) && !s.recv_waiting(q),
    ensures
        s.ard_posted(id, info, lists, top) == (false, s),
{
    let q = s.host.ard_queue->0;
    lemma_plain_read32(s, (q + 48) as u32);
}

/// What has been staged is what the hooks answer: the interface address and the
/// access-point record stand byte for byte where the firmware asked for them.
pub proof fn law_hooks_answer_what_was_staged(
    s: SocState,
    ap: crate::scan_fixture::FixtureAp,
    ip: Seq<u8>,
    out: u32,
    k: int,
)
    requires
        s.wf(),
        plain(out as int, 92),
        0 <= k < 92,
    ensures
        s.sta_staged(ap, ip).host.ip_info matches Some(info) && (k < 12 ==> s.sta_staged(
            ap,
            ip,
        ).bytes_written(out, info, 12).ram8(out + k) == crate::soc::net::ip_byte(ip, k)),
        s.sta_staged(ap, ip).host.ap_record matches Some(rec) && s.sta_staged(
            ap,
            ip,
        ).bytes_written(out, rec, 92).ram8(out + k) == crate::soc::net::record_byte(ap, k),
{
    let t = s.sta_staged(ap, ip);
    assert(t.wf()) by {
        reveal(SocState::wf);
    }
    let info = t.host.ip_info->0;
    let rec = t.host.ap_record->0;
    lemma_bytes_written(t, out, info, 12);
    lemma_bytes_written(t, out, rec, 92);
    if k < 12 {
        assert(info[k] == crate::soc::net::ip_byte(ip, k));
    }
    assert(rec[k] == crate::soc::net::record_byte(ap, k));
}

} // verus!
