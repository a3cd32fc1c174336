//! Descriptor chains that are filled or emptied piece by piece: streams that
//! keep a cursor between ticks, SPI exchanges driven by an outside master, and
//! SD transfers.

use super::{Soc, SocState};
use super::dma::{CHAIN_MAX, OWNER_CLEAR};
use vstd::prelude::*;

verus! {

broadcast use crate::soc::sizes::lemma_sized;

/// Descriptors that a stream goes through in one tick.
pub const STREAM_BURST: u32 = 8;

/// Position of a stream in its descriptor chain.
#[derive(Clone, Copy, PartialEq, Eq, Structural)]
pub struct DmaCursor {
    /// The stream runs.
    pub active: bool,
    /// DMA channel that carries it.
    pub ch: usize,
    /// Current descriptor; 0 for none.
    pub desc: u32,
    /// Bytes already moved in it.
    pub off: u32,
}

impl DmaCursor {
    /// The stream stands still.
    pub open spec fn parked(self) -> DmaCursor {
        DmaCursor { active: false, ..self }
    }
}

/// Words that can be moved: as many as are ready and fit the rest of the
/// descriptor.
pub open spec fn word_room(off: u32, len: u32, ready: nat) -> nat {
    if off + 4 > len {
        0
    } else if ready <= (len - off) / 4 {
        ready
    } else {
        ((len - off) / 4) as nat
    }
}

/// What a tick of a stream did: its new position, the words taken from memory,
/// the words put into memory, and the descriptors that were finished.
#[verifier::ext_equal]
pub struct Streamed {
    pub cur: DmaCursor,
    pub words: Seq<u32>,
    pub used: nat,
    pub eofs: Seq<u32>,
}

impl SocState {
    /// `n` words from `base` on.
    pub open spec fn words_read(self, base: u32, n: nat) -> (Seq<u32>, SocState)
        decreases n,
    {
        if n == 0 {
            (Seq::empty(), self)
        } else {
            let (w, s) = self.words_read(base, (n - 1) as nat);
            let a = base.wrapping_add((4 * (n - 1)) as u32);
            (w.push(s.read32(a)), s.after_read32(a))
        }
    }

    /// `n` words from index `from` on are written from `base` on.
    pub open spec fn words_written(self, base: u32, words: Seq<u32>, from: nat, n: nat) -> SocState
        decreases n,
    {
        if n == 0 {
            self
        } else {
            self.words_written(base, words, from, (n - 1) as nat).write32(
                base.wrapping_add((4 * (n - 1)) as u32),
                words[from + n - 1],
            )
        }
    }

    /// A tick of an output stream with room for `space` words, the first
    /// `done` having been moved: the descriptor is read out, and when it is
    /// finished the next one follows. The stream stops at a descriptor that is
    /// not owned and at the end of the chain.
    pub open spec fn streamed_out(self, t: Streamed, space: nat, fuel: nat) -> (Streamed, SocState)
        decreases fuel,
    {
        if fuel == 0 {
            (t, self)
        } else if t.cur.desc == 0 {
            (Streamed { cur: t.cur.parked(), ..t }, self)
        } else {
            let at = t.cur.desc;
            let control = self.read32(at);
            let s1 = self.after_read32(at);
            if (control >> 31) & 1 == 0 {
                (Streamed { cur: t.cur.parked(), ..t }, s1)
            } else {
                let buf = s1.read32(at.wrapping_add(4));
                let s2 = s1.after_read32(at.wrapping_add(4));
                let next = s2.read32(at.wrapping_add(8));
                let s3 = s2.after_read32(at.wrapping_add(8));
                let len = (control >> 12) & 0xFFF;
                let n = word_room(t.cur.off, len, (space - t.words.len()) as nat);
                let (w, s4) = s3.words_read(buf.wrapping_add(t.cur.off), n);
                let off = (t.cur.off + 4 * n) as u32;
                let t1 = Streamed {
                    cur: DmaCursor { off: off, ..t.cur },
                    words: t.words + w,
                    ..t
                };
                if off + 4 <= len {
                    (t1, s4)
                } else {
                    let t2 = Streamed { eofs: t1.eofs.push(at), ..t1 };
                    if next == 0 {
                        (Streamed { cur: t2.cur.parked(), ..t2 }, s4)
                    } else {
                        s4.streamed_out(
                            Streamed { cur: DmaCursor { desc: next, off: 0, ..t2.cur }, ..t2 },
                            space,
                            (fuel - 1) as nat,
                        )
                    }
                }
            }
        }
    }

    /// A tick of an input stream with the given words ready: the descriptor is
    /// filled, and when it is full the next one follows. With `give_back` a full
    /// descriptor is handed back. The stream stops at a descriptor that is not
    /// owned and at the end of the chain.
    pub open spec fn streamed_in(self, t: Streamed, ready: Seq<u32>, give_back: bool, fuel: nat) -> (
        Streamed,
        SocState,
    )
        decreases fuel,
    {
        if fuel == 0 {
            (t, self)
        } else if t.cur.desc == 0 {
            (Streamed { cur: t.cur.parked(), ..t }, self)
        } else {
            let at = t.cur.desc;
            let control = self.read32(at);
            let s1 = self.after_read32(at);
            if (control >> 31) & 1 == 0 {
                (Streamed { cur: t.cur.parked(), ..t }, s1)
            } else {
                let buf = s1.read32(at.wrapping_add(4));
                let s2 = s1.after_read32(at.wrapping_add(4));
                let next = s2.read32(at.wrapping_add(8));
                let s3 = s2.after_read32(at.wrapping_add(8));
                let len = (control >> 12) & 0xFFF;
                let n = word_room(t.cur.off, len, (ready.len() - t.used) as nat);
                let s4 = s3.words_written(buf.wrapping_add(t.cur.off), ready, t.used, n);
                let off = (t.cur.off + 4 * n) as u32;
                let t1 = Streamed { cur: DmaCursor { off: off, ..t.cur }, used: t.used + n, ..t };
                if off + 4 <= len {
                    (t1, s4)
                } else {
                    let s5 = if give_back {
                        s4.write32(at, control & OWNER_CLEAR)
                    } else {
                        s4
                    };
                    let t2 = Streamed { eofs: t1.eofs.push(at), ..t1 };
                    if next == 0 {
                        (Streamed { cur: t2.cur.parked(), ..t2 }, s5)
                    } else {
                        s5.streamed_in(
                            Streamed { cur: DmaCursor { desc: next, off: 0, ..t2.cur }, ..t2 },
                            ready,
                            give_back,
                            (fuel - 1) as nat,
                        )
                    }
                }
            }
        }
    }

    /// A stream at the given position that has not moved anything yet.
    pub open spec fn at_rest(cur: DmaCursor) -> Streamed {
        Streamed { cur, words: Seq::empty(), used: 0, eofs: Seq::empty() }
    }

    /// The end of a frame: the descriptor being filled is finished as it is.
    pub open spec fn frame_cut(self, cur: DmaCursor) -> (Seq<u32>, SocState) {
        if cur.desc == 0 {
            (Seq::empty(), self)
        } else {
            let control = self.read32(cur.desc);
            let s1 = self.after_read32(cur.desc);
            if (control >> 31) & 1 == 0 {
                (Seq::empty(), s1)
            } else {
                (seq![cur.desc], s1.write32(cur.desc, control & OWNER_CLEAR))
            }
        }
    }

    /// A tick of the camera stream. `fresh` tells that a link was started and no
    /// capture has used it yet. A frame that has ended finishes the descriptor;
    /// a stream with nothing to come is parked; else the ready words are stored.
    pub open spec fn camera_streamed(
        self,
        cur: DmaCursor,
        fresh: bool,
        ended: bool,
        capturing: bool,
        ready: Seq<u32>,
    ) -> (Streamed, SocState) {
        if ended && cur.active {
            let (eofs, s) = self.frame_cut(cur);
            (Streamed { cur: cur.parked(), eofs: eofs, ..SocState::at_rest(cur) }, s)
        } else if !fresh && !capturing && ready.len() == 0 {
            (Streamed { cur: cur.parked(), ..SocState::at_rest(cur) }, self)
        } else {
            self.streamed_in(SocState::at_rest(cur), ready, true, STREAM_BURST as nat)
        }
    }

    /// Bytes from `off` on are scattered over an input chain; a descriptor that
    /// has been filled is handed back.
    pub open spec fn scattered(self, at: u32, bytes: Seq<u8>, off: nat, fuel: nat) -> SocState
        decreases fuel,
    {
        if fuel == 0 {
            self
        } else {
            let (d, s1) = self.descriptor(at);
            if !d.owned() || off >= bytes.len() {
                s1
            } else {
                let n = if bytes.len() - off <= d.len() {
                    (bytes.len() - off) as nat
                } else {
                    d.len() as nat
                };
                let s2 = s1.bytes_written(
                    d.buf,
                    bytes.subrange(off as int, (off + n) as int),
                    n,
                );
                let s3 = if n >= d.len() {
                    s2.handed_back(at, d)
                } else {
                    s2
                };
                if off + n >= bytes.len() || d.last() {
                    s3
                } else {
                    s3.scattered(d.next, bytes, off + n, (fuel - 1) as nat)
                }
            }
        }
    }

    /// Up to `want` bytes are collected from an output chain, `got` of them
    /// already there; a descriptor that has been emptied is handed back.
    pub open spec fn collected(self, at: u32, want: nat, got: Seq<u8>, fuel: nat) -> (
        Seq<u8>,
        SocState,
    )
        decreases fuel,
    {
        if fuel == 0 {
            (got, self)
        } else {
            let (d, s1) = self.descriptor(at);
            if !d.owned() || got.len() >= want {
                (got, s1)
            } else {
                let n = if want - got.len() <= d.len() {
                    (want - got.len()) as nat
                } else {
                    d.len() as nat
                };
                let (b, s2) = s1.bytes_read(d.buf, n);
                let all = got + b;
                let s3 = if n >= d.len() {
                    s2.handed_back(at, d)
                } else {
                    s2
                };
                if all.len() >= want || d.last() {
                    (all, s3)
                } else {
                    s3.collected(d.next, want, all, (fuel - 1) as nat)
                }
            }
        }
    }

    /// Buffers of an SD descriptor ring for `remaining` bytes. A size of 0 means
    /// 4096; the last descriptor has bit 2 set or no next one.
    pub open spec fn sd_buffers(self, at: u32, remaining: nat, fuel: nat) -> (
        Seq<(u32, nat)>,
        SocState,
    )
        decreases fuel,
    {
        if fuel == 0 {
            (Seq::empty(), self)
        } else {
            let des0 = self.read32(at);
            let s1 = self.after_read32(at);
            let des1 = s1.read32(at.wrapping_add(4));
            let s2 = s1.after_read32(at.wrapping_add(4));
            let buf = s2.read32(at.wrapping_add(8));
            let s3 = s2.after_read32(at.wrapping_add(8)).write32(at, des0 & OWNER_CLEAR);
            let full = if des1 & 0x1FFF == 0 {
                4096
            } else {
                (des1 & 0x1FFF) as nat
            };
            let size = if full <= remaining {
                full
            } else {
                remaining
            };
            if des0 & 4 != 0 {
                (seq![(buf, size)], s3)
            } else {
                let next = s3.read32(at.wrapping_add(12));
                let s4 = s3.after_read32(at.wrapping_add(12));
                if next == 0 {
                    (seq![(buf, size)], s4)
                } else {
                    let (rest, s5) = s4.sd_buffers(
                        next,
                        (remaining - size) as nat,
                        (fuel - 1) as nat,
                    );
                    (seq![(buf, size)] + rest, s5)
                }
            }
        }
    }
}

/// What a tick of a stream did.
pub struct Pump {
    pub cur: DmaCursor,
    pub words: Vec<u32>,
    pub used: usize,
    pub eofs: Vec<u32>,
}

impl View for Pump {
    type V = Streamed;

    open spec fn view(&self) -> Streamed {
        Streamed { cur: self.cur, words: self.words@, used: self.used as nat, eofs: self.eofs@ }
    }
}

fn rest(cur: DmaCursor) -> (p: Pump)
    ensures
        p@ == SocState::at_rest(cur),
{
    let p = Pump { cur, words: Vec::new(), used: 0, eofs: Vec::new() };
    assert(p@ =~= SocState::at_rest(cur));
    p
}

fn room(off: u32, len: u32, ready: usize) -> (n: u32)
    requires
        len <= 0xFFF,
    ensures
        n == word_room(off, len, ready as nat),
        n <= 0x3FF,
        off + 4 * n <= u32::MAX,
{
    if off > len || len - off < 4 {
        0
    } else if ready as u64 <= ((len - off) / 4) as u64 {
        ready as u32
    } else {
        (len - off) / 4
    }
}

impl Soc {
    pub(crate) fn take_words(&mut self, base: u32, n: u32, into: &mut Vec<u32>)
        requires
            old(self)@.wf(),
            n <= 0x3FF,
        ensures
            (final(into)@, final(self)@) == (
                old(into)@ + old(self)@.words_read(base, n as nat).0,
                old(self)@.words_read(base, n as nat).1,
            ),
            old(self)@.words_read(base, n as nat).0.len() == n,
            final(self)@.wf(),
    {
        let ghost start = self@;
        let ghost before = into@;
        let mut k: u32 = 0;
        assert(into@ =~= before + start.words_read(base, 0).0);
        while k < n
            invariant
                k <= n <= 0x3FF,
                self@.wf(),
                self@ == start.words_read(base, k as nat).1,
                into@ == before + start.words_read(base, k as nat).0,
                start.words_read(base, k as nat).0.len() == k,
            decreases n - k,
        {
            let w: u32 = self.read32(base.wrapping_add(4 * k));
            into.push(w);
            k = k + 1;
            assert(into@ =~= before + start.words_read(base, k as nat).0);
        }
    }

    fn put_words(&mut self, base: u32, words: &[u32], from: usize, n: u32)
        requires
            old(self)@.wf(),
            n <= 0x3FF,
            from + n <= words@.len(),
        ensures
            final(self)@ == old(self)@.words_written(base, words@, from as nat, n as nat),
            final(self)@.wf(),
    {
        let ghost start = self@;
        let size: usize = words.len();
        let mut k: u32 = 0;
        while k < n
            invariant
                k <= n <= 0x3FF,
                from + n <= size,
                size == words@.len(),
                self@.wf(),
                self@ == start.words_written(base, words@, from as nat, k as nat),
            decreases n - k,
        {
            self.write32(base.wrapping_add(4 * k), words[from + k as usize]);
            k = k + 1;
        }
    }

    /// A tick of an output stream with room for `space` words. A stream that does
    /// not run is left alone.
    pub fn stream_out(&mut self, cur: DmaCursor, space: usize) -> (p: Pump)
        requires
            old(self)@.wf(),
        ensures
            (p@, final(self)@) == if cur.active {
                old(self)@.streamed_out(
                    SocState::at_rest(cur),
                    space as nat,
                    STREAM_BURST as nat,
                )
            } else {
                (SocState::at_rest(cur), old(self)@)
            },
            final(self)@.wf(),
    {
        let mut p = rest(cur);
        if !cur.active {
            return p;
        }
        let mut left: u32 = STREAM_BURST;
        let ghost all = self@.streamed_out(p@, space as nat, STREAM_BURST as nat);
        while left > 0
            invariant
                self@.wf(),
                cur.active,
                p.words@.len() <= space,
                all == self@.streamed_out(p@, space as nat, left as nat),
                all == old(self)@.streamed_out(
                    SocState::at_rest(cur),
                    space as nat,
                    STREAM_BURST as nat,
                ),
            decreases left,
        {
            let at: u32 = p.cur.desc;
            if at == 0 {
                p.cur.active = false;
                return p;
            }
            let control: u32 = self.read32(at);
            if (control >> 31) & 1 == 0 {
                p.cur.active = false;
                return p;
            }
            let buf: u32 = self.read32(at.wrapping_add(4));
            let next: u32 = self.read32(at.wrapping_add(8));
            broadcast use crate::bits::lemma_and_le;

            let len: u32 = (control >> 12) & 0xFFF;
            let n: u32 = room(p.cur.off, len, space - p.words.len());
            self.take_words(buf.wrapping_add(p.cur.off), n, &mut p.words);
            p.cur.off = p.cur.off + 4 * n;
            if p.cur.off <= len && len - p.cur.off >= 4 {
                return p;
            }
            p.eofs.push(at);
            if next == 0 {
                p.cur.active = false;
                return p;
            }
            p.cur.desc = next;
            p.cur.off = 0;
            left = left - 1;
        }
        p
    }

    fn fill_in(&mut self, cur: DmaCursor, ready: &[u32], give_back: bool) -> (p: Pump)
        requires
            old(self)@.wf(),
        ensures
            (p@, final(self)@) == old(self)@.streamed_in(
                SocState::at_rest(cur),
                ready@,
                give_back,
                STREAM_BURST as nat,
            ),
            final(self)@.wf(),
    {
        let mut p = rest(cur);
        let mut left: u32 = STREAM_BURST;
        let ghost all = self@.streamed_in(p@, ready@, give_back, STREAM_BURST as nat);
        while left > 0
            invariant
                self@.wf(),
                p.used <= ready@.len(),
                all == self@.streamed_in(p@, ready@, give_back, left as nat),
                all == old(self)@.streamed_in(
                    SocState::at_rest(cur),
                    ready@,
                    give_back,
                    STREAM_BURST as nat,
                ),
            decreases left,
        {
            let at: u32 = p.cur.desc;
            if at == 0 {
                p.cur.active = false;
                return p;
            }
            let control: u32 = self.read32(at);
            if (control >> 31) & 1 == 0 {
                p.cur.active = false;
                return p;
            }
            let buf: u32 = self.read32(at.wrapping_add(4));
            let next: u32 = self.read32(at.wrapping_add(8));
            broadcast use crate::bits::lemma_and_le;

            let len: u32 = (control >> 12) & 0xFFF;
            let n: u32 = room(p.cur.off, len, ready.len() - p.used);
            self.put_words(buf.wrapping_add(p.cur.off), ready, p.used, n);
            p.used = p.used + n as usize;
            p.cur.off = p.cur.off + 4 * n;
            if p.cur.off <= len && len - p.cur.off >= 4 {
                return p;
            }
            if give_back {
                self.write32(at, control & OWNER_CLEAR);
            }
            p.eofs.push(at);
            if next == 0 {
                p.cur.active = false;
                return p;
            }
            p.cur.desc = next;
            p.cur.off = 0;
            left = left - 1;
        }
        p
    }

    /// A tick of an input stream with the given words ready. A stream that does
    /// not run is left alone.
    pub fn stream_in(&mut self, cur: DmaCursor, ready: &[u32]) -> (p: Pump)
        requires
            old(self)@.wf(),
        ensures
            (p@, final(self)@) == if cur.active {
                old(self)@.streamed_in(
                    SocState::at_rest(cur),
                    ready@,
                    false,
                    STREAM_BURST as nat,
                )
            } else {
                (SocState::at_rest(cur), old(self)@)
            },
            final(self)@.wf(),
    {
        if cur.active {
            self.fill_in(cur, ready, false)
        } else {
            rest(cur)
        }
    }

    /// A tick of the camera stream; also returned is whether the link still
    /// awaits its first capture.
    pub fn stream_camera(
        &mut self,
        cur: DmaCursor,
        fresh: bool,
        ended: bool,
        capturing: bool,
        ready: &[u32],
    ) -> (r: (Pump, bool))
        requires
            old(self)@.wf(),
        ensures
            (r.0@, final(self)@) == old(self)@.camera_streamed(
                cur,
                fresh,
                ended,
                capturing,
                ready@,
            ),
            r.1 == (fresh && r.0.cur.active),
            final(self)@.wf(),
    {
        if ended && cur.active {
            let mut p = rest(cur);
            p.cur.active = false;
            if cur.desc != 0 {
                let control: u32 = self.read32(cur.desc);
                if (control >> 31) & 1 != 0 {
                    p.eofs.push(cur.desc);
                    self.write32(cur.desc, control & OWNER_CLEAR);
                    assert(p.eofs@ =~= seq![cur.desc]);
                }
            }
            assert(p@.words =~= Seq::<u32>::empty());
            return (p, false);
        }
        if !fresh && !capturing && ready.len() == 0 {
            let mut p = rest(cur);
            p.cur.active = false;
            return (p, false);
        }
        let p = self.fill_in(cur, ready, true);
        let still = fresh && p.cur.active;
        (p, still)
    }

    fn scatter(&mut self, link: u32, bytes: &[u8])
        requires
            old(self)@.wf(),
        ensures
            final(self)@ == old(self)@.scattered(link, bytes@, 0, CHAIN_MAX as nat),
            final(self)@.wf(),
    {
        let mut at: u32 = link;
        let mut off: usize = 0;
        let mut left: u32 = CHAIN_MAX;
        let ghost all = self@.scattered(link, bytes@, 0, CHAIN_MAX as nat);
        while left > 0
            invariant
                self@.wf(),
                off <= bytes@.len(),
                all == self@.scattered(at, bytes@, off as nat, left as nat),
                all == old(self)@.scattered(link, bytes@, 0, CHAIN_MAX as nat),
            decreases left,
        {
            let d = self.read_descriptor(at);
            if !d.is_owned() || off >= bytes.len() {
                return ;
            }
            let len: usize = d.length() as usize;
            let n: usize = if bytes.len() - off <= len {
                bytes.len() - off
            } else {
                len
            };
            let part = vstd::slice::slice_subrange(bytes, off, off + n);
            self.write_bytes(d.buf, part, n);
            if n >= len {
                self.hand_back(at, &d);
            }
            off = off + n;
            if off >= bytes.len() || d.is_last() {
                return ;
            }
            at = d.next;
            left = left - 1;
        }
    }

    fn read_bytes(&mut self, base: u32, n: u32, into: &mut Vec<u8>)
        requires
            old(self)@.wf(),
        ensures
            (final(into)@, final(self)@) == (
                old(into)@ + old(self)@.bytes_read(base, n as nat).0,
                old(self)@.bytes_read(base, n as nat).1,
            ),
            old(self)@.bytes_read(base, n as nat).0.len() == n,
            final(self)@.wf(),
    {
        let ghost start = self@;
        let ghost before = into@;
        let mut k: u32 = 0;
        assert(into@ =~= before + start.bytes_read(base, 0).0);
        while k < n
            invariant
                k <= n,
                self@.wf(),
                self@ == start.bytes_read(base, k as nat).1,
                into@ == before + start.bytes_read(base, k as nat).0,
                start.bytes_read(base, k as nat).0.len() == k,
            decreases n - k,
        {
            let b: u8 = self.read8(base.wrapping_add(k)) as u8;
            into.push(b);
            k = k + 1;
            assert(into@ =~= before + start.bytes_read(base, k as nat).0);
        }
    }

    fn collect(&mut self, link: u32, want: usize) -> (got: Vec<u8>)
        requires
            old(self)@.wf(),
        ensures
            (got@, final(self)@) == old(self)@.collected(
                link,
                want as nat,
                Seq::empty(),
                CHAIN_MAX as nat,
            ),
            final(self)@.wf(),
    {
        let mut at: u32 = link;
        let mut got: Vec<u8> = Vec::new();
        let mut left: u32 = CHAIN_MAX;
        let ghost all = self@.collected(link, want as nat, Seq::empty(), CHAIN_MAX as nat);
        assert(got@ =~= Seq::<u8>::empty());
        while left > 0
            invariant
                self@.wf(),
                all == self@.collected(at, want as nat, got@, left as nat),
                all == old(self)@.collected(
                    link,
                    want as nat,
                    Seq::empty(),
                    CHAIN_MAX as nat,
                ),
            decreases left,
        {
            let d = self.read_descriptor(at);
            if !d.is_owned() || got.len() >= want {
                return got;
            }
            let len: u32 = d.length();
            let n: u32 = if (want - got.len()) as u64 <= len as u64 {
                (want - got.len()) as u32
            } else {
                len
            };
            self.read_bytes(d.buf, n, &mut got);
            if n >= len {
                self.hand_back(at, &d);
            }
            if got.len() >= want || d.is_last() {
                return got;
            }
            at = d.next;
            left = left - 1;
        }
        got
    }
}

impl SocState {
    /// A master outside writes `bytes` to SPI channel `chan` in slave mode. With
    /// DMA they go to the input chain at `link`, if one is started; without, to
    /// the data buffer.
    pub open spec fn slave_written(self, chan: int, bytes: Seq<u8>, link: Option<u32>) -> SocState {
        if self.spi(chan).dma_rx_slave() {
            let s = match link {
                Some(at) => self.scattered(at, bytes, 0, CHAIN_MAX as nat),
                None => self,
            };
            s.with_spi(chan, s.spi(chan).slave_done(bit_count(bytes.len()), true))
        } else {
            self.with_spi(chan, self.spi(chan).after_slave_write(bytes))
        }
    }

    /// A master outside reads up to `n` bytes from SPI channel `chan` in slave
    /// mode. With DMA they come from the output chain at `link`, if one is
    /// started; without, from the data buffer.
    pub open spec fn slave_read(self, chan: int, n: nat, link: Option<u32>) -> (
        Seq<u8>,
        SocState,
    ) {
        if self.spi(chan).dma_tx_slave() {
            let (bytes, s) = match link {
                Some(at) => self.collected(at, n, Seq::empty(), CHAIN_MAX as nat),
                None => (Seq::empty(), self),
            };
            (bytes, s.with_spi(chan, s.spi(chan).slave_done(bit_count(bytes.len()), false)))
        } else {
            (
                self.spi(chan).slave_bytes(n),
                self.with_spi(chan, self.spi(chan).after_slave_read(n)),
            )
        }
    }

    /// The bytes of the first `n` buffers.
    pub open spec fn sd_gathered(self, bufs: Seq<(u32, nat)>, n: nat) -> (Seq<u8>, SocState)
        decreases n,
    {
        if n == 0 {
            (Seq::empty(), self)
        } else {
            let (b, s) = self.sd_gathered(bufs, (n - 1) as nat);
            let (more, s1) = s.bytes_read(bufs[n - 1].0, bufs[n - 1].1);
            (b + more, s1)
        }
    }

    /// The bytes of `data` that the first `n` buffers take are stored in them;
    /// how many that are comes first.
    pub open spec fn sd_scattered(self, bufs: Seq<(u32, nat)>, data: Seq<u8>, n: nat) -> (
        nat,
        SocState,
    )
        decreases n,
    {
        if n == 0 {
            (0, self)
        } else {
            let (off, s) = self.sd_scattered(bufs, data, (n - 1) as nat);
            let (buf, size) = bufs[n - 1];
            let k = if off + size <= data.len() {
                size
            } else {
                (data.len() - off) as nat
            };
            (off + k, s.bytes_written(buf, data.subrange(off as int, (off + k) as int), k))
        }
    }

    /// An SD write: the bytes of the descriptor ring at `ring`.
    pub open spec fn sd_taken(self, ring: u32, count: nat) -> (Seq<u8>, SocState) {
        let (bufs, s) = self.sd_buffers(ring, count, CHAIN_MAX as nat);
        s.sd_gathered(bufs, bufs.len())
    }

    /// An SD read: `data` is stored in the buffers of the descriptor ring at
    /// `ring`.
    pub open spec fn sd_given(self, ring: u32, count: nat, data: Seq<u8>) -> SocState {
        let (bufs, s) = self.sd_buffers(ring, count, CHAIN_MAX as nat);
        s.sd_scattered(bufs, data, bufs.len()).1
    }
}

/// Bits in `n` bytes.
pub open spec fn bit_count(n: nat) -> u32 {
    (n as u64).wrapping_mul(8) as u32
}

impl Soc {
    fn slave_dma_done(&mut self, chan: usize, len: usize, is_write: bool)
        requires
            old(self)@.wf(),
            chan < 2,
        ensures
            final(self)@ == old(self)@.with_spi(
                chan as int,
                old(self)@.spi(chan as int).slave_done(bit_count(len as nat), is_write),
            ),
            final(self)@.wf(),
    {
        reveal(SocState::wf);
        let bits: u32 = (len as u64).wrapping_mul(8) as u32;
        if chan == 0 {
            self.spi2.slave_dma_done(bits, is_write);
        } else {
            self.spi3.slave_dma_done(bits, is_write);
        }
        assert(self@ =~= old(self)@.with_spi(
            chan as int,
            old(self)@.spi(chan as int).slave_done(bit_count(len as nat), is_write),
        ));
    }

    /// A master outside writes to SPI channel `chan`. `link` is the input chain
    /// started for the channel; whether it was completed is returned.
    pub fn spi_slave_inject_write(&mut self, chan: usize, bytes: &[u8], link: Option<u32>) -> (done:
        bool)
        requires
            old(self)@.wf(),
            chan < 2,
        ensures
            done == (old(self)@.spi(chan as int).dma_rx_slave() && link is Some),
            final(self)@ == old(self)@.slave_written(chan as int, bytes@, link),
            final(self)@.wf(),
    {
        let dma = if chan == 0 {
            self.spi2.slave_dma_rx_enabled()
        } else {
            self.spi3.slave_dma_rx_enabled()
        };
        if dma {
            match link {
                Some(at) => self.scatter(at, bytes),
                None => {},
            }
            self.slave_dma_done(chan, bytes.len(), true);
            link.is_some()
        } else {
            reveal(SocState::wf);
            if chan == 0 {
                self.spi2.slave_inject_write(bytes);
            } else {
                self.spi3.slave_inject_write(bytes);
            }
            assert(self@ =~= old(self)@.slave_written(chan as int, bytes@, link));
            false
        }
    }

    /// A master outside reads from SPI channel `chan`. `link` is the output chain
    /// started for the channel.
    pub fn spi_slave_take_read(&mut self, chan: usize, nbytes: usize, link: Option<u32>) -> (out:
        Vec<u8>)
        requires
            old(self)@.wf(),
            chan < 2,
        ensures
            (out@, final(self)@) == old(self)@.slave_read(chan as int, nbytes as nat, link),
            final(self)@.wf(),
    {
        let dma = if chan == 0 {
            self.spi2.slave_dma_tx_enabled()
        } else {
            self.spi3.slave_dma_tx_enabled()
        };
        if dma {
            let out: Vec<u8> = match link {
                Some(at) => self.collect(at, nbytes),
                None => Vec::new(),
            };
            assert(link is None ==> out@ =~= Seq::<u8>::empty());
            self.slave_dma_done(chan, out.len(), false);
            out
        } else {
            reveal(SocState::wf);
            let out: Vec<u8> = if chan == 0 {
                self.spi2.slave_take_read(nbytes)
            } else {
                self.spi3.slave_take_read(nbytes)
            };
            assert(self@ =~= old(self)@.slave_read(chan as int, nbytes as nat, link).1);
            out
        }
    }

    fn list_sd_buffers(&mut self, ring: u32, count: u32) -> (bufs: Vec<(u32, u32)>)
        requires
            old(self)@.wf(),
        ensures
            (widened(bufs@), final(self)@) == old(self)@.sd_buffers(
                ring,
                count as nat,
                CHAIN_MAX as nat,
            ),
            final(self)@.wf(),
    {
        let mut bufs: Vec<(u32, u32)> = Vec::new();
        let mut at: u32 = ring;
        let mut remaining: u32 = count;
        let mut left: u32 = CHAIN_MAX;
        let ghost all = self@.sd_buffers(ring, count as nat, CHAIN_MAX as nat);
        assert(widened(bufs@) + all.0 =~= all.0);
        while left > 0
            invariant
                self@.wf(),
                all.0 == widened(bufs@) + self@.sd_buffers(at, remaining as nat, left as nat).0,
                all.1 == self@.sd_buffers(at, remaining as nat, left as nat).1,
                all == old(self)@.sd_buffers(ring, count as nat, CHAIN_MAX as nat),
            decreases left,
        {
            let ghost before = widened(bufs@);
            let des0: u32 = self.read32(at);
            let des1: u32 = self.read32(at.wrapping_add(4));
            let buf: u32 = self.read32(at.wrapping_add(8));
            let full: u32 = if des1 & 0x1FFF == 0 {
                4096
            } else {
                des1 & 0x1FFF
            };
            let size: u32 = if full <= remaining {
                full
            } else {
                remaining
            };
            self.write32(at, des0 & OWNER_CLEAR);
            bufs.push((buf, size));
            assert(widened(bufs@) =~= before + seq![(buf, size as nat)]);
            if des0 & 4 != 0 {
                return bufs;
            }
            let next: u32 = self.read32(at.wrapping_add(12));
            if next == 0 {
                return bufs;
            }
            at = next;
            remaining = remaining - size;
            left = left - 1;
            proof {
                let rest = self@.sd_buffers(at, remaining as nat, left as nat).0;
                assert(before + (seq![(buf, size as nat)] + rest) =~= widened(bufs@) + rest);
            }
        }
        assert(widened(bufs@) + Seq::<(u32, nat)>::empty() =~= widened(bufs@));
        bufs
    }

    /// Take the bytes of an SD write from the descriptor ring at `ring`.
    pub fn idmac_gather(&mut self, ring: u32, count: u32) -> (data: Vec<u8>)
        requires
            old(self)@.wf(),
        ensures
            (data@, final(self)@) == old(self)@.sd_taken(ring, count as nat),
            final(self)@.wf(),
    {
        let bufs: Vec<(u32, u32)> = self.list_sd_buffers(ring, count);
        let ghost start = self@;
        let ghost list = widened(bufs@);
        let mut data: Vec<u8> = Vec::new();
        let mut i: usize = 0;
        assert(data@ =~= Seq::<u8>::empty());
        while i < bufs.len()
            invariant
                i <= bufs@.len(),
                list == widened(bufs@),
                self@.wf(),
                (data@, self@) == start.sd_gathered(list, i as nat),
            decreases bufs@.len() - i,
        {
            let (buf, size) = bufs[i];
            self.read_bytes(buf, size, &mut data);
            i = i + 1;
        }
        data
    }

    /// Store the bytes of an SD read in the buffers of the descriptor ring at
    /// `ring`.
    pub fn idmac_scatter(&mut self, ring: u32, count: u32, data: &[u8])
        requires
            old(self)@.wf(),
        ensures
            final(self)@ == old(self)@.sd_given(ring, count as nat, data@),
            final(self)@.wf(),
    {
        let bufs: Vec<(u32, u32)> = self.list_sd_buffers(ring, count);
        let ghost start = self@;
        let ghost list = widened(bufs@);
        let mut off: usize = 0;
        let mut i: usize = 0;
        while i < bufs.len()
            invariant
                i <= bufs@.len(),
                off <= data@.len(),
                list == widened(bufs@),
                self@.wf(),
                (off as nat, self@) == start.sd_scattered(list, data@, i as nat),
            decreases bufs@.len() - i,
        {
            let (buf, size) = bufs[i];
            let left: usize = data.len() - off;
            let k: usize = if size as u64 <= left as u64 {
                size as usize
            } else {
                left
            };
            let part = vstd::slice::slice_subrange(data, off, off + k);
            self.write_bytes(buf, part, k);
            off = off + k;
            i = i + 1;
        }
    }
}

/// A buffer list with its sizes as numbers.
pub open spec fn widened(bufs: Seq<(u32, u32)>) -> Seq<(u32, nat)> {
    Seq::new(bufs.len(), |i: int| (bufs[i].0, bufs[i].1 as nat))
}

/// A tick of an output stream never takes more words than there is room for, and
/// one of an input stream never uses more than are ready.
pub proof fn law_stream_keeps_to_its_bounds(
    s: SocState,
    t: Streamed,
    space: nat,
    ready: Seq<u32>,
    give_back: bool,
    fuel: nat,
)
    requires
        t.words.len() <= space,
        t.used <= ready.len(),
    ensures
        s.streamed_out(t, space, fuel).0.words.len() <= space,
        s.streamed_in(t, ready, give_back, fuel).0.used <= ready.len(),
{
    lemma_out_bound(s, t, space, fuel);
    lemma_in_bound(s, t, ready, give_back, fuel);
}

proof fn lemma_words_read_len(s: SocState, base: u32, n: nat)
    ensures
        s.words_read(base, n).0.len() == n,
    decreases n,
{
    if n > 0 {
        lemma_words_read_len(s, base, (n - 1) as nat);
    }
}

proof fn lemma_out_bound(s: SocState, t: Streamed, space: nat, fuel: nat)
    requires
        t.words.len() <= space,
    ensures
        s.streamed_out(t, space, fuel).0.words.len() <= space,
    decreases fuel,
{
    if fuel > 0 && t.cur.desc != 0 {
        let at = t.cur.desc;
        let control = s.read32(at);
        let s1 = s.after_read32(at);
        if (control >> 31) & 1 != 0 {
            let buf = s1.read32(at.wrapping_add(4));
            let s2 = s1.after_read32(at.wrapping_add(4));
            let next = s2.read32(at.wrapping_add(8));
            let s3 = s2.after_read32(at.wrapping_add(8));
            let len = (control >> 12) & 0xFFF;
            let n = word_room(t.cur.off, len, (space - t.words.len()) as nat);
            lemma_words_read_len(s3, buf.wrapping_add(t.cur.off), n);
            let (w, s4) = s3.words_read(buf.wrapping_add(t.cur.off), n);
            let off = (t.cur.off + 4 * n) as u32;
            let t1 = Streamed { cur: DmaCursor { off: off, ..t.cur }, words: t.words + w, ..t };
            let t2 = Streamed { eofs: t1.eofs.push(at), ..t1 };
            let t3 = Streamed { cur: DmaCursor { desc: next, off: 0, ..t2.cur }, ..t2 };
            lemma_out_bound(s4, t3, space, (fuel - 1) as nat);
        }
    }
}

proof fn lemma_in_bound(s: SocState, t: Streamed, ready: Seq<u32>, give_back: bool, fuel: nat)
    requires
        t.used <= ready.len(),
    ensures
        s.streamed_in(t, ready, give_back, fuel).0.used <= ready.len(),
    decreases fuel,
{
    if fuel > 0 && t.cur.desc != 0 {
        let at = t.cur.desc;
        let control = s.read32(at);
        let s1 = s.after_read32(at);
        if (control >> 31) & 1 != 0 {
            let buf = s1.read32(at.wrapping_add(4));
            let s2 = s1.after_read32(at.wrapping_add(4));
            let next = s2.read32(at.wrapping_add(8));
            let s3 = s2.after_read32(at.wrapping_add(8));
            let len = (control >> 12) & 0xFFF;
            let n = word_room(t.cur.off, len, (ready.len() - t.used) as nat);
            let s4 = s3.words_written(buf.wrapping_add(t.cur.off), ready, t.used, n);
            let off = (t.cur.off + 4 * n) as u32;
            let t1 = Streamed { cur: DmaCursor { off: off, ..t.cur }, used: t.used + n, ..t };
            let s5 = if give_back {
                s4.write32(at, control & OWNER_CLEAR)
            } else {
                s4
            };
            let t2 = Streamed { eofs: t1.eofs.push(at), ..t1 };
            let t3 = Streamed { cur: DmaCursor { desc: next, off: 0, ..t2.cur }, ..t2 };
            lemma_in_bound(s5, t3, ready, give_back, (fuel - 1) as nat);
        }
    }
}

} // verus!
