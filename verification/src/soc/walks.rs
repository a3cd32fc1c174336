//! Descriptor chains of any length in ordinary memory: what a whole walk moves.

use super::SocState;
use crate::memmap::DRAM_BASE;
use vstd::prelude::*;

verus! {

/// A descriptor of a chain: where it lies, its buffer and how much of it counts.
pub struct Link {
    pub at: u32,
    pub buf: u32,
    pub len: u32,
}

/// The control word of a descriptor: owned by the controller, `len` bytes, and marked as
/// the last one or not.
pub open spec fn control_says(control: u32, len: u32, last: bool) -> bool {
    &&& control >= 0x8000_0000
    &&& (control / 0x1000) % 0x1000 == len
    &&& ((control / 0x4000_0000) % 2 == 1) == last
}

/// The descriptors lie in ordinary memory, each names the next one, and only the last
/// is marked so where `ends` says it.
pub open spec fn chained(s: SocState, c: Seq<Link>, ends: bool) -> bool {
    &&& c.len() > 0
    &&& forall|k: int|
        0 <= k < c.len() ==> {
            &&& crate::soc::ram::plain((#[trigger] c[k]).at as int, 12)
            &&& crate::soc::ram::plain(c[k].buf as int, c[k].len as int)
            &&& control_says(s.ram32(c[k].at as int), c[k].len, ends && k == c.len() - 1)
            &&& s.ram32(c[k].at + 4) == c[k].buf
            &&& k + 1 < c.len() ==> s.ram32(c[k].at + 8) == c[k + 1].at
        }
    &&& !ends ==> s.ram32(c.last().at + 8) != 0
}

/// Bytes that a pair of descriptors moves.
pub open spec fn shorter(a: Link, b: Link) -> int {
    if a.len <= b.len {
        a.len as int
    } else {
        b.len as int
    }
}

/// The descriptors of a chain do not meet.
pub open spec fn spread(c: Seq<Link>) -> bool {
    forall|j: int, k: int|
        0 <= j < c.len() && 0 <= k < c.len() && j != k ==> crate::soc::ram::apart(
            (#[trigger] c[j]).at as int,
            12,
            (#[trigger] c[k]).at as int,
            12,
        )
}

/// No buffer of chain `b` meets a descriptor of chain `d`.
pub open spec fn clear_of(b: Seq<Link>, d: Seq<Link>) -> bool {
    forall|j: int, k: int|
        0 <= j < b.len() && 0 <= k < d.len() ==> crate::soc::ram::apart(
            (#[trigger] b[j]).buf as int,
            b[j].len as int,
            (#[trigger] d[k]).at as int,
            12,
        )
}

/// Source and destination chains that can be walked together: all descriptors, the
/// destination buffers among themselves, and sources and destinations are apart.
#[verifier::opaque]
pub open spec fn disjoint(o: Seq<Link>, i: Seq<Link>) -> bool {
    &&& spread(o) && spread(i)
    &&& clear_of(o, o) && clear_of(o, i) && clear_of(i, o) && clear_of(i, i)
    &&& forall|j: int, k: int|
        0 <= j < o.len() && 0 <= k < i.len() ==> crate::soc::ram::apart(
            (#[trigger] o[j]).at as int,
            12,
            (#[trigger] i[k]).at as int,
            12,
        ) && crate::soc::ram::apart(o[j].buf as int, o[j].len as int, i[k].buf as int, i[k].len as int)
    &&& forall|j: int, k: int|
        0 <= j < i.len() && 0 <= k < i.len() && j != k ==> crate::soc::ram::apart(
            (#[trigger] i[j]).buf as int,
            i[j].len as int,
            (#[trigger] i[k]).buf as int,
            i[k].len as int,
        )
}

/// A memory-to-memory walk of two chains leaves the byte at `x` alone.
pub open spec fn untouched(x: int, o: Seq<Link>, i: Seq<Link>) -> bool {
    forall|k: int|
        0 <= k < o.len() ==> !((#[trigger] o[k]).at <= x < o[k].at + 4) && !(i[k].at <= x < i[k].at + 4)
            && !(i[k].buf <= x < i[k].buf + shorter(o[k], i[k]))
}

/// Each destination buffer holds what its source buffer held, as far as both reach;
/// every descriptor is handed back with the rest of its control word kept; every other
/// byte is kept.
pub open spec fn moved(s: SocState, t: SocState, o: Seq<Link>, i: Seq<Link>) -> bool {
    &&& t.mem.sram.len() == s.mem.sram.len()
    &&& forall|k: int, j: int|
        0 <= k < o.len() && 0 <= j < shorter(o[k], i[k]) ==> #[trigger] t.ram8(i[k].buf + j) == s.ram8(
            o[k].buf + j,
        )
    &&& forall|k: int|
        0 <= k < o.len() ==> {
            &&& t.ram32((#[trigger] o[k]).at as int) == s.ram32(o[k].at as int) % 0x8000_0000
            &&& t.ram32(i[k].at as int) == s.ram32(i[k].at as int) % 0x8000_0000
        }
    &&& forall|x: int|
        0 <= x < s.mem.sram.len() && untouched(DRAM_BASE + x, o, i) ==> #[trigger] t.mem.sram[x]
            == s.mem.sram[x]
}

/// The fields of a control word in arithmetic.
proof fn lemma_control_fields(c: u32)
    by (bit_vector)
    ensures
        (c >> 31) & 1 != 0 <==> c >= 0x8000_0000,
        (c >> 30) & 1 == (c / 0x4000_0000) % 2,
        (c >> 12) & 0xFFF == (c / 0x1000) % 0x1000,
        c & 0x7FFF_FFFF == c % 0x8000_0000,
{
}

/// A word whose bytes are kept is kept.
proof fn lemma_word_kept(s: SocState, t: SocState, a: int)
    requires
        s.mem.sram.len() == t.mem.sram.len(),
        forall|x: int| a <= x < a + 4 ==> #[trigger] t.mem.sram[x - DRAM_BASE] == s.mem.sram[x - DRAM_BASE],
    ensures
        t.ram32(a) == s.ram32(a),
{
    assert(t.mem.sram[(a + 0) - DRAM_BASE] == s.mem.sram[(a + 0) - DRAM_BASE]);
    assert(t.mem.sram[(a + 1) - DRAM_BASE] == s.mem.sram[(a + 1) - DRAM_BASE]);
    assert(t.mem.sram[(a + 2) - DRAM_BASE] == s.mem.sram[(a + 2) - DRAM_BASE]);
    assert(t.mem.sram[(a + 3) - DRAM_BASE] == s.mem.sram[(a + 3) - DRAM_BASE]);
}

/// A chain descriptor as the walk reads it.
proof fn lemma_read_link(s: SocState, c: Seq<Link>, ends: bool)
    requires
        s.wf(),
        chained(s, c, ends),
    ensures
        ({
            let (d, t) = s.descriptor(c[0].at);
            &&& t == s
            &&& d.owned()
            &&& d.len() == c[0].len
            &&& d.buf == c[0].buf
            &&& d.control == s.ram32(c[0].at as int)
            &&& d.last() == (ends && c.len() == 1)
            &&& c.len() > 1 ==> d.next == c[1].at
        }),
{
    let at = c[0].at;
    crate::soc::ram::lemma_plain_read32(s, at);
    crate::soc::ram::lemma_plain_read32(s, (at + 4) as u32);
    crate::soc::ram::lemma_plain_read32(s, (at + 8) as u32);
    lemma_control_fields(s.ram32(at as int));
    if c.len() > 1 {
        assert(c[1].at >= DRAM_BASE);
    } else {
        assert(c.last() == c[0]);
    }
}

/// A chain whose descriptors keep their words stays a chain; so does its rest.
proof fn lemma_rest_chained(s: SocState, t: SocState, c: Seq<Link>, ends: bool)
    requires
        chained(s, c, ends),
        c.len() > 1,
        s.mem.sram.len() == t.mem.sram.len(),
        forall|k: int, x: int|
            1 <= k < c.len() && (#[trigger] c[k]).at <= x < c[k].at + 12
                ==> #[trigger] t.mem.sram[x - DRAM_BASE] == s.mem.sram[x - DRAM_BASE],
    ensures
        chained(t, c.skip(1), ends),
{
    let r = c.skip(1);
    assert forall|k: int| 0 <= k < r.len() implies {
        &&& crate::soc::ram::plain((#[trigger] r[k]).at as int, 12)
        &&& crate::soc::ram::plain(r[k].buf as int, r[k].len as int)
        &&& control_says(t.ram32(r[k].at as int), r[k].len, ends && k == r.len() - 1)
        &&& t.ram32(r[k].at + 4) == r[k].buf
        &&& k + 1 < r.len() ==> t.ram32(r[k].at + 8) == r[k + 1].at
    } by {
        let l = c[k + 1];
        assert(r[k] == l);
        lemma_word_kept(s, t, l.at as int);
        lemma_word_kept(s, t, l.at + 4);
        lemma_word_kept(s, t, l.at + 8);
    }
    assert(r.last() == c.last());
    lemma_word_kept(s, t, c.last().at + 8);
}

/// One pair of descriptors is moved.
proof fn lemma_pair_moved(s: SocState, o: Seq<Link>, i: Seq<Link>, a: bool, b: bool) -> (t: SocState)
    requires
        s.wf(),
        chained(s, o, a),
        chained(s, i, b),
        o.len() == i.len(),
        disjoint(o, i),
    ensures
        ({
            let (d, s1) = s.descriptor(o[0].at);
            let (e, s2) = s1.descriptor(i[0].at);
            let n = shorter(o[0], i[0]);
            &&& t == s2.bytes_copied(d.buf, e.buf, n as nat).handed_back(o[0].at, d).handed_back(
                i[0].at,
                e,
            )
            &&& t.wf()
            &&& t == s.with_sram(t.mem.sram)
            &&& moved(s, t, o.take(1), i.take(1))
        }),
{
    reveal(SocState::wf);
    reveal(disjoint);
    lemma_read_link(s, o, a);
    lemma_read_link(s, i, b);
    let d = s.descriptor(o[0].at).0;
    let e = s.descriptor(i[0].at).0;
    let n = shorter(o[0], i[0]);
    let (from, to) = (o[0].at, i[0].at);
    crate::soc::ram::lemma_bytes_copied(s, d.buf, e.buf, n as nat);
    let t0 = s.bytes_copied(d.buf, e.buf, n as nat);
    let c0 = d.control & crate::soc::dma::OWNER_CLEAR;
    let c1 = e.control & crate::soc::dma::OWNER_CLEAR;
    lemma_control_fields(d.control);
    lemma_control_fields(e.control);
    let t1 = t0.write32(from, c0);
    crate::soc::ram::lemma_plain_write32(t0, from, c0);
    let t2 = t1.write32(to, c1);
    crate::soc::ram::lemma_plain_write32(t1, to, c1);
    crate::soc::ram::lemma_ram_store(t0, from, c0, from as int);
    crate::soc::ram::lemma_ram_store(t1, to, c1, from as int);
    crate::soc::ram::lemma_ram_store(t1, to, c1, to as int);
    let (o1, i1) = (o.take(1), i.take(1));
    assert(o1[0] == o[0] && i1[0] == i[0]);
    assert forall|k: int, j: int|
        0 <= k < o1.len() && 0 <= j < shorter(o1[k], i1[k]) implies #[trigger] t2.ram8(
        i1[k].buf + j,
    ) == s.ram8(o1[k].buf + j) by {
        let x = i[0].buf + j - DRAM_BASE;
        assert(t0.ram8(i[0].buf + j) == s.ram8(o[0].buf + j));
        crate::bytes::lemma_word_store_frame(t0.mem.sram, from - DRAM_BASE, c0, x);
        crate::bytes::lemma_word_store_frame(t1.mem.sram, to - DRAM_BASE, c1, x);
    }
    assert forall|x: int|
        0 <= x < s.mem.sram.len() && untouched(
            DRAM_BASE + x,
            o.take(1),
            i.take(1),
        ) implies #[trigger] t2.mem.sram[x] == s.mem.sram[x] by {
        assert(o.take(1)[0] == o[0] && i.take(1)[0] == i[0]);
        assert(t0.mem.sram[x] == s.mem.sram[x]);
        crate::bytes::lemma_word_store_frame(t0.mem.sram, from - DRAM_BASE, c0, x);
        crate::bytes::lemma_word_store_frame(t1.mem.sram, to - DRAM_BASE, c1, x);
    }
    t2
}

/// Memory to memory along two whole chains of the same number of owned descriptors that
/// lie apart in ordinary memory, at least one of which is marked at its end: each
/// destination buffer holds what its source buffer held, as far as both reach, every
/// descriptor is handed back with the rest of its control word kept, and the last source
/// descriptor is reported. No other byte of memory, and nothing else of the chip,
/// changes.
pub proof fn law_whole_chains_are_copied(
    s: SocState,
    o: Seq<Link>,
    i: Seq<Link>,
    a: bool,
    b: bool,
)
    requires
        s.wf(),
        chained(s, o, a),
        chained(s, i, b),
        a || b,
        o.len() == i.len(),
        o.len() <= crate::soc::dma::CHAIN_MAX,
        disjoint(o, i),
    ensures
        ({
            let (eof, t) = s.chains_copied(
                o[0].at,
                i[0].at,
                None,
                crate::soc::dma::CHAIN_MAX as nat,
            );
            &&& eof == Some(o.last().at)
            &&& moved(s, t, o, i)
            &&& t == s.with_sram(t.mem.sram)
        }),
{
    lemma_chains(s, o, i, a, b, None, crate::soc::dma::CHAIN_MAX as nat);
}

proof fn lemma_rest_disjoint(o: Seq<Link>, i: Seq<Link>)
    requires
        o.len() == i.len(),
        o.len() > 1,
        disjoint(o, i),
    ensures
        disjoint(o.skip(1), i.skip(1)),
{
    reveal(disjoint);
    let (p, q) = (o.skip(1), i.skip(1));
    assert forall|k: int| 0 <= k < p.len() implies #[trigger] p[k] == o[k + 1] && q[k] == i[k + 1] by {}
    assert forall|k: int| 0 <= k < q.len() implies #[trigger] q[k] == i[k + 1] by {}
}

proof fn lemma_chains(
    s: SocState,
    o: Seq<Link>,
    i: Seq<Link>,
    a: bool,
    b: bool,
    eof: Option<u32>,
    fuel: nat,
)
    requires
        s.wf(),
        chained(s, o, a),
        chained(s, i, b),
        a || b,
        o.len() == i.len(),
        o.len() <= fuel,
        disjoint(o, i),
    ensures
        ({
            let (e, t) = s.chains_copied(o[0].at, i[0].at, eof, fuel);
            &&& e == Some(o.last().at)
            &&& t.wf()
            &&& t == s.with_sram(t.mem.sram)
            &&& moved(s, t, o, i)
        }),
    decreases o.len(),
{
    lemma_read_link(s, o, a);
    lemma_read_link(s, i, b);
    let s3 = lemma_pair_moved(s, o, i, a, b);
    if o.len() == 1 {
        assert(o.take(1) =~= o && i.take(1) =~= i);
        assert(s.chains_copied(o[0].at, i[0].at, eof, fuel) == (Some(o[0].at), s3));
    } else {
        let (p, q) = (o.skip(1), i.skip(1));
        lemma_later_links_kept(s, s3, o, i);
        lemma_rest_chained(s, s3, o, a);
        lemma_rest_chained(s, s3, i, b);
        lemma_rest_disjoint(o, i);
        lemma_chains(s3, p, q, a, b, Some(o[0].at), (fuel - 1) as nat);
        let (e, t) = s3.chains_copied(p[0].at, q[0].at, Some(o[0].at), (fuel - 1) as nat);
        assert(s.chains_copied(o[0].at, i[0].at, eof, fuel) == (e, t));
        assert(p.last() == o.last());
        lemma_moves_join(s, s3, t, o, i);
    }
}

/// The first pair leaves the later descriptors alone.
proof fn lemma_later_links_kept(s: SocState, t: SocState, o: Seq<Link>, i: Seq<Link>)
    requires
        s.wf(),
        o.len() == i.len(),
        disjoint(o, i),
        moved(s, t, o.take(1), i.take(1)),
        forall|k: int|
            0 <= k < o.len() ==> crate::soc::ram::plain((#[trigger] o[k]).at as int, 12)
                && crate::soc::ram::plain(i[k].at as int, 12),
    ensures
        forall|k: int, x: int|
            1 <= k < o.len() && (#[trigger] o[k]).at <= x < o[k].at + 12
                ==> #[trigger] t.mem.sram[x - DRAM_BASE] == s.mem.sram[x - DRAM_BASE],
        forall|k: int, x: int|
            1 <= k < i.len() && (#[trigger] i[k]).at <= x < i[k].at + 12
                ==> #[trigger] t.mem.sram[x - DRAM_BASE] == s.mem.sram[x - DRAM_BASE],
{
    reveal(SocState::wf);
    assert forall|k: int, x: int|
        1 <= k < o.len() && (#[trigger] o[k]).at <= x < o[k].at + 12 implies #[trigger] t.mem.sram[x
        - DRAM_BASE] == s.mem.sram[x - DRAM_BASE] by {
        lemma_apart_untouched(x, o, i, k);
    }
    assert forall|k: int, x: int|
        1 <= k < i.len() && (#[trigger] i[k]).at <= x < i[k].at + 12 implies #[trigger] t.mem.sram[x
        - DRAM_BASE] == s.mem.sram[x - DRAM_BASE] by {
        assert(crate::soc::ram::plain(o[k].at as int, 12));
        lemma_apart_untouched(x, o, i, k);
    }
}

/// Moving the first pair and then the rest is moving all.
#[verifier::spinoff_prover]
#[verifier::rlimit(60)]
proof fn lemma_moves_join(s: SocState, u: SocState, t: SocState, o: Seq<Link>, i: Seq<Link>)
    requires
        s.wf(),
        o.len() == i.len(),
        o.len() > 1,
        disjoint(o, i),
        forall|k: int|
            0 <= k < o.len() ==> crate::soc::ram::plain((#[trigger] o[k]).at as int, 12)
                && crate::soc::ram::plain(i[k].at as int, 12) && crate::soc::ram::plain(
                o[k].buf as int,
                o[k].len as int,
            ) && crate::soc::ram::plain(i[k].buf as int, i[k].len as int),
        moved(s, u, o.take(1), i.take(1)),
        moved(u, t, o.skip(1), i.skip(1)),
    ensures
        moved(s, t, o, i),
{
    reveal(SocState::wf);
    let (p, q) = (o.skip(1), i.skip(1));
    let (o1, i1) = (o.take(1), i.take(1));
    assert(o1[0] == o[0] && i1[0] == i[0]);
    lemma_later_links_kept(s, u, o, i);
    assert forall|k: int, j: int|
        0 <= k < o.len() && 0 <= j < shorter(o[k], i[k]) implies #[trigger] t.ram8(i[k].buf + j)
        == s.ram8(o[k].buf + j) by {
        if k == 0 {
            assert(u.ram8(i1[0].buf + j) == s.ram8(o1[0].buf + j));
            lemma_first_untouched(i[0].buf + j, o, i);
            assert(t.mem.sram[i[0].buf + j - DRAM_BASE] == u.mem.sram[i[0].buf + j - DRAM_BASE]);
        } else {
            assert(p[k - 1] == o[k] && q[k - 1] == i[k]);
            assert(t.ram8(q[k - 1].buf + j) == u.ram8(p[k - 1].buf + j));
            lemma_apart_untouched(o[k].buf + j, o, i, k);
            assert(u.mem.sram[o[k].buf + j - DRAM_BASE] == s.mem.sram[o[k].buf + j - DRAM_BASE]);
        }
    }
    assert forall|k: int| 0 <= k < o.len() implies {
        &&& t.ram32((#[trigger] o[k]).at as int) == s.ram32(o[k].at as int) % 0x8000_0000
        &&& t.ram32(i[k].at as int) == s.ram32(i[k].at as int) % 0x8000_0000
    } by {
        if k == 0 {
            assert forall|x: int| o[0].at <= x < o[0].at + 4 implies #[trigger] t.mem.sram[x
                - DRAM_BASE] == u.mem.sram[x - DRAM_BASE] by {
                lemma_first_untouched(x, o, i);
            }
            assert forall|x: int| i[0].at <= x < i[0].at + 4 implies #[trigger] t.mem.sram[x
                - DRAM_BASE] == u.mem.sram[x - DRAM_BASE] by {
                lemma_first_untouched(x, o, i);
            }
            lemma_word_kept(u, t, o[0].at as int);
            lemma_word_kept(u, t, i[0].at as int);
        } else {
            assert(p[k - 1] == o[k] && q[k - 1] == i[k]);
            lemma_word_kept(s, u, o[k].at as int);
            lemma_word_kept(s, u, i[k].at as int);
        }
    }
    assert forall|x: int|
        0 <= x < s.mem.sram.len() && untouched(DRAM_BASE + x, o, i) implies #[trigger] t.mem.sram[x]
        == s.mem.sram[x] by {
        assert(untouched(DRAM_BASE + x, o1, i1));
        assert forall|k: int| 0 <= k < p.len() implies !((#[trigger] p[k]).at <= DRAM_BASE + x
            < p[k].at + 4) && !(q[k].at <= DRAM_BASE + x < q[k].at + 4) && !(q[k].buf <= DRAM_BASE
            + x < q[k].buf + shorter(p[k], q[k])) by {
            assert(p[k] == o[k + 1] && q[k] == i[k + 1]);
        }
        assert(untouched(DRAM_BASE + x, p, q));
        assert(u.mem.sram[x] == s.mem.sram[x]);
    }
}

/// A byte of a later descriptor or source buffer is not touched by the first pair.
proof fn lemma_apart_untouched(x: int, o: Seq<Link>, i: Seq<Link>, k: int)
    requires
        disjoint(o, i),
        o.len() == i.len(),
        1 <= k < o.len(),
        o[k].at <= x < o[k].at + 12 || i[k].at <= x < i[k].at + 12 || o[k].buf <= x < o[k].buf
            + o[k].len,
    ensures
        untouched(x, o.take(1), i.take(1)),
{
    reveal(disjoint);
    assert(o.take(1)[0] == o[0] && i.take(1)[0] == i[0]);
    let (a, b, c, d) = (o[0], i[0], o[k], i[k]);
    assert(crate::soc::ram::apart(a.at as int, 12, c.at as int, 12));
    assert(crate::soc::ram::apart(b.at as int, 12, d.at as int, 12));
}

/// A byte of the first pair's descriptors or destination is not touched by later ones.
proof fn lemma_first_untouched(x: int, o: Seq<Link>, i: Seq<Link>)
    requires
        disjoint(o, i),
        o.len() == i.len(),
        o.len() > 1,
        o[0].at <= x < o[0].at + 12 || i[0].at <= x < i[0].at + 12 || i[0].buf <= x < i[0].buf
            + i[0].len,
    ensures
        untouched(x, o.skip(1), i.skip(1)),
{
    reveal(disjoint);
    let (p, q) = (o.skip(1), i.skip(1));
    assert forall|k: int| 0 <= k < p.len() implies !((#[trigger] p[k]).at <= x < p[k].at + 4) && !(
    q[k].at <= x < q[k].at + 4) && !(q[k].buf <= x < q[k].buf + shorter(p[k], q[k])) by {
        let (a, b, c, d) = (o[0], i[0], o[k + 1], i[k + 1]);
        assert(p[k] == c && q[k] == d);
        assert(crate::soc::ram::apart(a.at as int, 12, c.at as int, 12));
        assert(crate::soc::ram::apart(b.at as int, 12, d.at as int, 12));
        assert(crate::soc::ram::apart(b.buf as int, b.len as int, d.buf as int, d.len as int));
    }
}

/// The bytes of a descriptor's buffer.
pub open spec fn link_bytes(s: SocState, l: Link) -> Seq<u8> {
    Seq::new(l.len as nat, |j: int| s.ram8(l.buf + j))
}

/// The bytes of all buffers of a chain, one after the other.
pub open spec fn chain_bytes(s: SocState, c: Seq<Link>) -> Seq<u8>
    decreases c.len(),
{
    if c.len() == 0 {
        Seq::empty()
    } else {
        link_bytes(s, c[0]) + chain_bytes(s, c.skip(1))
    }
}

/// An output chain that can be walked: marked at its end, its descriptors apart from
/// each other and from the buffers, which are followed by ordinary memory.
pub open spec fn walkable(s: SocState, c: Seq<Link>) -> bool {
    &&& s.wf()
    &&& chained(s, c, true)
    &&& spread(c)
    &&& clear_of(c, c)
    &&& forall|k: int|
        0 <= k < c.len() ==> crate::soc::ram::plain((#[trigger] c[k]).buf as int, c[k].len + 4)
}

/// Every descriptor is handed back with the rest of its control word kept, and no other
/// byte changes.
pub open spec fn released(s: SocState, t: SocState, c: Seq<Link>) -> bool {
    &&& t.mem == s.with_sram(t.mem.sram).mem
    &&& t.mem.sram.len() == s.mem.sram.len()
    &&& forall|k: int|
        0 <= k < c.len() ==> t.ram32((#[trigger] c[k]).at as int) == s.ram32(c[k].at as int)
            % 0x8000_0000
    &&& forall|x: int|
        0 <= x < s.mem.sram.len() && (forall|k: int|
            0 <= k < c.len() ==> !((#[trigger] c[k]).at <= DRAM_BASE + x < c[k].at + 4))
            ==> #[trigger] t.mem.sram[x] == s.mem.sram[x]
}

/// Handing back one descriptor.
proof fn lemma_handed_back(s: SocState, c: Seq<Link>)
    requires
        s.wf(),
        chained(s, c, true),
    ensures
        ({
            let d = s.descriptor(c[0].at).0;
            let t = s.handed_back(c[0].at, d);
            &&& t.wf()
            &&& t == s.with_sram(t.mem.sram)
            &&& released(s, t, c.take(1))
        }),
{
    reveal(SocState::wf);
    lemma_read_link(s, c, true);
    let d = s.descriptor(c[0].at).0;
    let v = d.control & crate::soc::dma::OWNER_CLEAR;
    lemma_control_fields(d.control);
    crate::soc::ram::lemma_plain_write32(s, c[0].at, v);
    crate::soc::ram::lemma_ram_store(s, c[0].at, v, c[0].at as int);
    assert(c.take(1)[0] == c[0]);
    let t = s.handed_back(c[0].at, d);
    assert forall|x: int|
        0 <= x < s.mem.sram.len() && (forall|k: int|
            0 <= k < c.take(1).len() ==> !((#[trigger] c.take(1)[k]).at <= DRAM_BASE + x < c.take(
                1,
            )[k].at + 4)) implies #[trigger] t.mem.sram[x] == s.mem.sram[x] by {
        assert(!(c.take(1)[0].at <= DRAM_BASE + x < c.take(1)[0].at + 4));
        crate::bytes::lemma_word_store_frame(s.mem.sram, c[0].at - DRAM_BASE, v, x);
    }
}

/// What is left of a chain once its first descriptor is handed back.
proof fn lemma_rest_walkable(s: SocState, t: SocState, c: Seq<Link>)
    requires
        walkable(s, c),
        c.len() > 1,
        released(s, t, c.take(1)),
        t.wf(),
    ensures
        walkable(t, c.skip(1)),
        chain_bytes(t, c.skip(1)) == chain_bytes(s, c.skip(1)),
{
    reveal(SocState::wf);
    let r = c.skip(1);
    assert(c.take(1)[0] == c[0]);
    assert forall|k: int, x: int|
        1 <= k < c.len() && (#[trigger] c[k]).at <= x < c[k].at + 12 implies #[trigger] t.mem.sram[x
        - DRAM_BASE] == s.mem.sram[x - DRAM_BASE] by {
        assert(crate::soc::ram::apart(c[0].at as int, 12, c[k].at as int, 12));
    }
    lemma_rest_chained(s, t, c, true);
    assert forall|k: int| 0 <= k < r.len() implies #[trigger] r[k] == c[k + 1] by {}
    lemma_same_bytes(s, t, r, c[0].at as int);
}

/// Buffers apart from a handed-back descriptor hold the same bytes.
proof fn lemma_same_bytes(s: SocState, t: SocState, c: Seq<Link>, at: int)
    requires
        s.wf(),
        t.mem.sram.len() == s.mem.sram.len(),
        forall|x: int|
            0 <= x < s.mem.sram.len() && !(at <= DRAM_BASE + x < at + 4) ==> #[trigger] t.mem.sram[x]
                == s.mem.sram[x],
        forall|k: int|
            0 <= k < c.len() ==> crate::soc::ram::apart(
                (#[trigger] c[k]).buf as int,
                c[k].len as int,
                at,
                12,
            ) && crate::soc::ram::plain(c[k].buf as int, c[k].len as int),
    ensures
        chain_bytes(t, c) == chain_bytes(s, c),
    decreases c.len(),
{
    reveal(SocState::wf);
    if c.len() > 0 {
        let r = c.skip(1);
        assert forall|k: int| 0 <= k < r.len() implies #[trigger] r[k] == c[k + 1] by {}
        lemma_same_bytes(s, t, r, at);
        assert(link_bytes(t, c[0]) =~= link_bytes(s, c[0]));
    }
}

/// Handing back the first descriptor and then the rest is handing back all.
proof fn lemma_release_join(s: SocState, u: SocState, t: SocState, c: Seq<Link>)
    requires
        walkable(s, c),
        c.len() > 1,
        released(s, u, c.take(1)),
        released(u, t, c.skip(1)),
    ensures
        released(s, t, c),
{
    reveal(SocState::wf);
    let r = c.skip(1);
    assert(c.take(1)[0] == c[0]);
    assert forall|k: int| 0 <= k < c.len() implies t.ram32((#[trigger] c[k]).at as int) == s.ram32(
        c[k].at as int,
    ) % 0x8000_0000 by {
        if k == 0 {
            assert forall|x: int| c[0].at <= x < c[0].at + 4 implies #[trigger] t.mem.sram[x
                - DRAM_BASE] == u.mem.sram[x - DRAM_BASE] by {
                assert forall|j: int| 0 <= j < r.len() implies !((#[trigger] r[j]).at <= x < r[j].at
                    + 4) by {
                    assert(r[j] == c[j + 1]);
                    assert(crate::soc::ram::apart(c[0].at as int, 12, c[j + 1].at as int, 12));
                }
            }
            lemma_word_kept(u, t, c[0].at as int);
            assert(u.ram32(c.take(1)[0].at as int) == s.ram32(c[0].at as int) % 0x8000_0000);
        } else {
            assert(r[k - 1] == c[k]);
            assert forall|x: int| c[k].at <= x < c[k].at + 4 implies #[trigger] u.mem.sram[x
                - DRAM_BASE] == s.mem.sram[x - DRAM_BASE] by {
                assert(crate::soc::ram::apart(c[0].at as int, 12, c[k].at as int, 12));
            }
            lemma_word_kept(s, u, c[k].at as int);
        }
    }
    assert forall|x: int|
        0 <= x < s.mem.sram.len() && (forall|k: int|
            0 <= k < c.len() ==> !((#[trigger] c[k]).at <= DRAM_BASE + x < c[k].at + 4)) implies
        #[trigger] t.mem.sram[x] == s.mem.sram[x] by {
        assert(!(c[0].at <= DRAM_BASE + x < c[0].at + 4));
        assert(u.mem.sram[x] == s.mem.sram[x]);
        assert forall|k: int| 0 <= k < r.len() implies !((#[trigger] r[k]).at <= DRAM_BASE + x
            < r[k].at + 4) by {
            assert(r[k] == c[k + 1]);
        }
    }
}

/// Words of ordinary memory, byte by byte.
proof fn lemma_words_gathered(s: SocState, buf: u32, n: nat)
    requires
        s.wf(),
        crate::soc::ram::plain(buf as int, (4 * n) as int),
    ensures
        s.words_gathered(buf, n).1 == s,
        s.words_gathered(buf, n).0 == Seq::new(4 * n, |j: int| s.ram8(buf + j)),
    decreases n,
{
    if n == 0 {
        assert(s.words_gathered(buf, 0).0 =~= Seq::new(0, |j: int| s.ram8(buf + j)));
    } else {
        let m = (n - 1) as nat;
        lemma_words_gathered(s, buf, m);
        lemma_word_bytes(s, buf + 4 * m);
        crate::soc::ram::lemma_plain_read32(s, (buf + 4 * m) as u32);
        assert(s.words_gathered(buf, n).0 =~= Seq::new(4 * n, |j: int| s.ram8(buf + j)));
    }
}

proof fn lemma_word_bytes(s: SocState, a: int)
    requires
        s.wf(),
        crate::soc::ram::plain(a, 4),
    ensures
        crate::soc::dma::word_bytes(s.ram32(a)) == seq![
            s.ram8(a),
            s.ram8(a + 1),
            s.ram8(a + 2),
            s.ram8(a + 3),
        ],
{
    reveal(SocState::wf);
    crate::bytes::lemma_lanes_of_le_word(s.ram8(a), s.ram8(a + 1), s.ram8(a + 2), s.ram8(a + 3));
}

/// A buffer of ordinary memory is read as it stands.
proof fn lemma_gathered(s: SocState, l: Link)
    requires
        s.wf(),
        crate::soc::ram::plain(l.buf as int, l.len + 4),
        l.len <= 0xFFF,
    ensures
        s.gathered(l.buf, l.len) == (link_bytes(s, l), s),
{
    let n = (l.len / 4) as nat;
    lemma_words_gathered(s, l.buf, n);
    let a = l.buf + 4 * n;
    crate::soc::ram::lemma_plain_read32(s, a as u32);
    lemma_word_bytes(s, a);
    assert(s.gathered(l.buf, l.len).0 =~= link_bytes(s, l));
}

/// An output chain of an SPI channel is staged whole: the bytes of all its buffers, in
/// the order of the chain, behind what was staged before. Every descriptor is handed
/// back, the last one is reported, and nothing else changes.
pub proof fn law_whole_chain_is_staged(s: SocState, chan: int, c: Seq<Link>)
    requires
        walkable(s, c),
        c.len() <= crate::soc::dma::CHAIN_MAX,
        s.spi(chan).dma_tx.len() + 0x1000 * c.len() <= crate::spi::STAGED_MAX,
    ensures
        ({
            let (eof, t) = s.spi_staged(chan, c[0].at, None, crate::soc::dma::CHAIN_MAX as nat);
            &&& eof == Some(c.last().at)
            &&& t.spi(chan).dma_tx == s.spi(chan).dma_tx + chain_bytes(s, c)
            &&& released(s, t, c)
        }),
{
    lemma_chain_staged(s, chan, c, None, crate::soc::dma::CHAIN_MAX as nat);
}

proof fn lemma_len_fits(s: SocState, c: Seq<Link>)
    requires
        walkable(s, c),
    ensures
        c[0].len <= 0xFFF,
{
    lemma_read_link(s, c, true);
}

#[verifier::spinoff_prover]
#[verifier::rlimit(60)]
proof fn lemma_chain_staged(s: SocState, chan: int, c: Seq<Link>, eof: Option<u32>, fuel: nat)
    requires
        walkable(s, c),
        c.len() <= fuel,
        s.spi(chan).dma_tx.len() + 0x1000 * c.len() <= crate::spi::STAGED_MAX,
    ensures
        ({
            let (e, t) = s.spi_staged(chan, c[0].at, eof, fuel);
            &&& e == Some(c.last().at)
            &&& t.spi(chan).dma_tx == s.spi(chan).dma_tx + chain_bytes(s, c)
            &&& released(s, t, c)
        }),
    decreases c.len(),
{
    lemma_read_link(s, c, true);
    lemma_len_fits(s, c);
    lemma_gathered(s, c[0]);
    let bytes = link_bytes(s, c[0]);
    let u = s.with_spi(
        chan,
        crate::spi::SpiState { dma_tx: s.spi(chan).dma_tx + bytes, ..s.spi(chan) },
    );
    assert(u.wf()) by {
        reveal(SocState::wf);
    }
    assert(chained(u, c, true));
    lemma_handed_back(u, c);
    lemma_read_link(u, c, true);
    let d = s.descriptor(c[0].at).0;
    assert(u.descriptor(c[0].at).0.control == d.control);
    let v = u.handed_back(c[0].at, d);
    assert(released(s, v, c.take(1)));
    assert(s.spi_staged(chan, c[0].at, eof, fuel) == if c.len() == 1 {
        (Some(c[0].at), v)
    } else {
        v.spi_staged(chan, c[1].at, Some(c[0].at), (fuel - 1) as nat)
    });
    if c.len() == 1 {
        assert(c.take(1) =~= c);
        assert(chain_bytes(s, c.skip(1)) =~= Seq::<u8>::empty());
        assert(chain_bytes(s, c) =~= bytes);
    } else {
        let r = c.skip(1);
        lemma_rest_walkable(s, v, c);
        assert(r[0] == c[1] && r.last() == c.last());
        lemma_chain_staged(v, chan, r, Some(c[0].at), (fuel - 1) as nat);
        let t = v.spi_staged(chan, r[0].at, Some(c[0].at), (fuel - 1) as nat).1;
        lemma_release_join(s, v, t, c);
        assert(s.spi(chan).dma_tx + bytes + chain_bytes(s, r) =~= s.spi(chan).dma_tx + chain_bytes(
            s,
            c,
        ));
    }
}

/// What the UHCI puts on the line for a chain: each buffer encoded on its own, in the
/// order of the chain.
pub open spec fn chain_line(s: SocState, c: Seq<Link>) -> Seq<u8>
    decreases c.len(),
{
    if c.len() == 0 {
        Seq::empty()
    } else {
        s.uhci.encoded(link_bytes(s, c[0])) + chain_line(s, c.skip(1))
    }
}

/// The line bytes depend on the buffers and on the framing alone.
proof fn lemma_same_line(s: SocState, t: SocState, c: Seq<Link>, at: int)
    requires
        s.wf(),
        t.uhci.conf0 == s.uhci.conf0,
        t.uhci.esc_conf == s.uhci.esc_conf,
        t.mem.sram.len() == s.mem.sram.len(),
        forall|x: int|
            0 <= x < s.mem.sram.len() && !(at <= DRAM_BASE + x < at + 4) ==> #[trigger] t.mem.sram[x]
                == s.mem.sram[x],
        forall|k: int|
            0 <= k < c.len() ==> crate::soc::ram::apart(
                (#[trigger] c[k]).buf as int,
                c[k].len as int,
                at,
                12,
            ) && crate::soc::ram::plain(c[k].buf as int, c[k].len as int),
    ensures
        chain_line(t, c) == chain_line(s, c),
    decreases c.len(),
{
    reveal(SocState::wf);
    if c.len() > 0 {
        let r = c.skip(1);
        assert forall|k: int| 0 <= k < r.len() implies #[trigger] r[k] == c[k + 1] by {}
        lemma_same_line(s, t, r, at);
        assert(link_bytes(t, c[0]) =~= link_bytes(s, c[0]));
    }
}

/// An output chain of the UHCI is sent whole: the UART that it serves has sent the bytes
/// of every buffer, framed where framing is on, in the order of the chain, behind what it
/// had sent before. Every descriptor is handed back and the last one is reported.
pub proof fn law_whole_chain_is_sent(s: SocState, c: Seq<Link>, n: usize)
    requires
        walkable(s, c),
        c.len() <= crate::soc::dma::CHAIN_MAX,
        s.uhci_uart() == Some(n),
    ensures
        ({
            let (eof, t) = s.uhci_chain_sent(c[0].at, None, crate::soc::dma::CHAIN_MAX as nat);
            &&& eof == Some(c.last().at)
            &&& t.uart(n as int).tx_out == s.uart(n as int).tx_out + chain_line(s, c)
            &&& released(s, t, c)
        }),
{
    lemma_chain_sent(s, c, n, None, crate::soc::dma::CHAIN_MAX as nat);
}

/// Sending a buffer keeps the memories and the framing.
proof fn lemma_sent(s: SocState, bytes: Seq<u8>, n: usize)
    requires
        s.wf(),
        s.uhci_uart() == Some(n),
    ensures
        ({
            let u = s.uhci_sent(bytes);
            &&& u.wf()
            &&& u.mem == s.mem
            &&& u.uhci.conf0 == s.uhci.conf0
            &&& u.uhci.esc_conf == s.uhci.esc_conf
            &&& u.clk_en0 == s.clk_en0
            &&& u.uart(n as int).tx_out == s.uart(n as int).tx_out + s.uhci.encoded(bytes)
        }),
{
    reveal(SocState::wf);
}

#[verifier::spinoff_prover]
#[verifier::rlimit(60)]
proof fn lemma_chain_sent(s: SocState, c: Seq<Link>, n: usize, eof: Option<u32>, fuel: nat)
    requires
        walkable(s, c),
        c.len() <= fuel,
        s.uhci_uart() == Some(n),
    ensures
        ({
            let (e, t) = s.uhci_chain_sent(c[0].at, eof, fuel);
            &&& e == Some(c.last().at)
            &&& t.uart(n as int).tx_out == s.uart(n as int).tx_out + chain_line(s, c)
            &&& released(s, t, c)
        }),
    decreases c.len(),
{
    lemma_read_link(s, c, true);
    lemma_len_fits(s, c);
    lemma_gathered(s, c[0]);
    let bytes = link_bytes(s, c[0]);
    let u = s.uhci_sent(bytes);
    lemma_sent(s, bytes, n);
    assert(chained(u, c, true));
    lemma_handed_back(u, c);
    lemma_read_link(u, c, true);
    let d = s.descriptor(c[0].at).0;
    assert(u.descriptor(c[0].at).0.control == d.control);
    let v = u.handed_back(c[0].at, d);
    assert(released(s, v, c.take(1)));
    let line = s.uhci.encoded(bytes);
    let sent = s.uart(n as int).tx_out;
    assert(v.uart(n as int).tx_out == sent + line);
    assert(s.uhci_chain_sent(c[0].at, eof, fuel) == if c.len() == 1 {
        (Some(c[0].at), v)
    } else {
        v.uhci_chain_sent(c[1].at, Some(c[0].at), (fuel - 1) as nat)
    });
    if c.len() == 1 {
        assert(c.take(1) =~= c);
        assert(chain_line(s, c.skip(1)) =~= Seq::<u8>::empty());
        assert(chain_line(s, c) =~= line);
    } else {
        let r = c.skip(1);
        lemma_rest_walkable(s, v, c);
        assert(r[0] == c[1] && r.last() == c.last());
        assert(v.uhci_uart() == Some(n));
        lemma_chain_sent(v, r, n, Some(c[0].at), (fuel - 1) as nat);
        let t = v.uhci_chain_sent(r[0].at, Some(c[0].at), (fuel - 1) as nat).1;
        lemma_release_join(s, v, t, c);
        assert(c.take(1)[0] == c[0]);
        assert forall|k: int| 0 <= k < r.len() implies #[trigger] r[k] == c[k + 1] by {}
        lemma_same_line(s, v, r, c[0].at as int);
        assert(sent + line + chain_line(s, r) =~= sent + chain_line(s, c));
    }
}

} // verus!
