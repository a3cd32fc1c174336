//! Descriptor chains of blocks outside: their data is taken from memory or put
//! there, and the descriptors are handed back; the block itself gets or gives
//! the words elsewhere.

use super::dma::CHAIN_MAX;
use super::{Soc, SocState};
use vstd::prelude::*;

verus! {

broadcast use crate::soc::sizes::lemma_sized;

/// What a gathered chain held.
#[verifier::ext_equal]
pub struct Gathered {
    /// The whole words of all its buffers, in order.
    pub words: Seq<u32>,
    /// How many words there were after each descriptor.
    pub ends: Seq<usize>,
    /// The last descriptor.
    pub eof: Option<u32>,
}

impl Gathered {
    pub open spec fn nothing() -> Gathered {
        Gathered { words: Seq::empty(), ends: Seq::empty(), eof: None }
    }
}

/// Word `i` of a run; 0 once it has run dry.
pub open spec fn word_or_zero(words: Seq<u32>, i: int) -> u32 {
    if 0 <= i < words.len() {
        words[i]
    } else {
        0
    }
}

impl SocState {
    /// An output chain is gathered, `got` being there already: the whole words of
    /// each owned descriptor's buffer are read, and the descriptor is handed
    /// back.
    pub open spec fn chain_gathered(self, at: u32, got: Gathered, fuel: nat) -> (Gathered, SocState)
        decreases fuel,
    {
        if fuel == 0 {
            (got, self)
        } else {
            let (d, s1) = self.descriptor(at);
            if !d.owned() {
                (got, s1)
            } else {
                let (w, s2) = s1.words_read(d.buf, (d.len() / 4) as nat);
                let s3 = s2.handed_back(at, d);
                let more = Gathered {
                    words: got.words + w,
                    ends: got.ends.push((got.words + w).len() as usize),
                    eof: Some(at),
                };
                if d.last() {
                    (more, s3)
                } else {
                    s3.chain_gathered(d.next, more, (fuel - 1) as nat)
                }
            }
        }
    }

    /// `n` words from index `from` on are stored from `buf` on, zeros once they
    /// have run dry.
    pub open spec fn words_stored(self, buf: u32, words: Seq<u32>, from: int, n: nat) -> SocState
        decreases n,
    {
        if n == 0 {
            self
        } else {
            self.words_stored(buf, words, from, (n - 1) as nat).write32(
                buf.wrapping_add((4 * (n - 1)) as u32),
                word_or_zero(words, from + n - 1),
            )
        }
    }

    /// An input chain is filled: each owned descriptor gets the words from index
    /// `from` on, in whole words, and is handed back. The next one goes on from
    /// there, or with `restart` gets the same words again. The number of filled
    /// descriptors comes first.
    pub open spec fn chain_filled(
        self,
        at: u32,
        words: Seq<u32>,
        from: int,
        restart: bool,
        fuel: nat,
    ) -> (nat, SocState)
        decreases fuel,
    {
        if fuel == 0 {
            (0, self)
        } else {
            let (d, s1) = self.descriptor(at);
            if !d.owned() {
                (0, s1)
            } else {
                let n = (d.len() / 4) as nat;
                let s2 = s1.words_stored(d.buf, words, from, n).handed_back(at, d);
                if d.last() {
                    (1, s2)
                } else {
                    let (k, s3) = s2.chain_filled(
                        d.next,
                        words,
                        if restart {
                            from
                        } else {
                            from + n
                        },
                        restart,
                        (fuel - 1) as nat,
                    );
                    (k + 1, s3)
                }
            }
        }
    }

    /// A chain that no block serves: its owned descriptors are handed back as
    /// they are. Their number comes first.
    pub open spec fn chain_released(self, at: u32, fuel: nat) -> (nat, SocState)
        decreases fuel,
    {
        if fuel == 0 {
            (0, self)
        } else {
            let (d, s1) = self.descriptor(at);
            if !d.owned() {
                (0, s1)
            } else {
                let s2 = s1.handed_back(at, d);
                if d.last() {
                    (1, s2)
                } else {
                    let (k, s3) = s2.chain_released(d.next, (fuel - 1) as nat);
                    (k + 1, s3)
                }
            }
        }
    }
}

/// A gathered chain.
pub struct GatheredChain {
    pub words: Vec<u32>,
    pub ends: Vec<usize>,
    pub eof: Option<u32>,
}

impl View for GatheredChain {
    type V = Gathered;

    open spec fn view(&self) -> Gathered {
        Gathered { words: self.words@, ends: self.ends@, eof: self.eof }
    }
}

impl Soc {
    /// Gather the output chain at `link` for a block outside.
    pub fn dma_gather(&mut self, link: u32) -> (got: GatheredChain)
        requires
            old(self)@.wf(),
        ensures
            (got@, final(self)@) == old(self)@.chain_gathered(
                link,
                Gathered::nothing(),
                CHAIN_MAX as nat,
            ),
            final(self)@.wf(),
    {
        let mut got = GatheredChain { words: Vec::new(), ends: Vec::new(), eof: None };
        let mut at: u32 = link;
        let mut left: u32 = CHAIN_MAX;
        assert(got@ =~= Gathered::nothing());
        let ghost all = self@.chain_gathered(link, Gathered::nothing(), CHAIN_MAX as nat);
        while left > 0
            invariant
                self@.wf(),
                all == self@.chain_gathered(at, got@, left as nat),
                all == old(self)@.chain_gathered(link, Gathered::nothing(), CHAIN_MAX as nat),
            decreases left,
        {
            let d = self.read_descriptor(at);
            if !d.is_owned() {
                return got;
            }
            let ghost before = got@;
            let ghost w = self@.words_read(d.buf, (d.len() / 4) as nat).0;
            self.take_words(d.buf, d.length() / 4, &mut got.words);
            got.ends.push(got.words.len());
            got.eof = Some(at);
            self.hand_back(at, &d);
            assert(got@ =~= Gathered {
                words: before.words + w,
                ends: before.ends.push((before.words + w).len() as usize),
                eof: Some(at),
            });
            if d.is_last() {
                return got;
            }
            at = d.next;
            left = left - 1;
        }
        got
    }

    fn store_words(&mut self, buf: u32, words: &[u32], from: u64, n: u32)
        requires
            old(self)@.wf(),
            n <= 0x3FF,
            from <= 0x1_0000_0000_0000,
        ensures
            final(self)@ == old(self)@.words_stored(buf, words@, from as int, n as nat),
            final(self)@.wf(),
    {
        let ghost start = self@;
        let size: usize = words.len();
        let mut k: u32 = 0;
        while k < n
            invariant
                k <= n <= 0x3FF,
                from <= 0x1_0000_0000_0000,
                size == words@.len(),
                self@.wf(),
                self@ == start.words_stored(buf, words@, from as int, k as nat),
            decreases n - k,
        {
            let i: u64 = from + k as u64;
            let w: u32 = if i < size as u64 {
                words[i as usize]
            } else {
                0
            };
            self.write32(buf.wrapping_add(4 * k), w);
            k = k + 1;
        }
    }

    /// Fill the input chain at `link` with the words that a block outside gives,
    /// zeros once they have run dry. With `restart` every descriptor gets the
    /// words from the first one on. The number of filled descriptors is returned.
    pub fn dma_fill(&mut self, link: u32, words: &[u32], restart: bool) -> (filled: u32)
        requires
            old(self)@.wf(),
        ensures
            (filled as nat, final(self)@) == old(self)@.chain_filled(
                link,
                words@,
                0,
                restart,
                CHAIN_MAX as nat,
            ),
            final(self)@.wf(),
    {
        let mut at: u32 = link;
        let mut filled: u32 = 0;
        let mut from: u64 = 0;
        let mut left: u32 = CHAIN_MAX;
        let ghost all = self@.chain_filled(link, words@, 0, restart, CHAIN_MAX as nat);
        while left > 0
            invariant
                left + filled == CHAIN_MAX,
                from <= 0x3FF * filled,
                self@.wf(),
                all.0 == filled + self@.chain_filled(
                    at,
                    words@,
                    from as int,
                    restart,
                    left as nat,
                ).0,
                all.1 == self@.chain_filled(at, words@, from as int, restart, left as nat).1,
                all == old(self)@.chain_filled(link, words@, 0, restart, CHAIN_MAX as nat),
            decreases left,
        {
            let d = self.read_descriptor(at);
            if !d.is_owned() {
                return filled;
            }
            let n: u32 = d.length() / 4;
            self.store_words(d.buf, words, from, n);
            self.hand_back(at, &d);
            filled = filled + 1;
            if d.is_last() {
                return filled;
            }
            if !restart {
                from = from + n as u64;
            }
            at = d.next;
            left = left - 1;
        }
        filled
    }

    /// Hand back the chain at `link`, which no block serves. The number of its
    /// descriptors is returned.
    pub fn dma_release(&mut self, link: u32) -> (count: u32)
        requires
            old(self)@.wf(),
        ensures
            (count as nat, final(self)@) == old(self)@.chain_released(link, CHAIN_MAX as nat),
            final(self)@.wf(),
    {
        let mut at: u32 = link;
        let mut count: u32 = 0;
        let mut left: u32 = CHAIN_MAX;
        let ghost all = self@.chain_released(link, CHAIN_MAX as nat);
        while left > 0
            invariant
                left + count == CHAIN_MAX,
                self@.wf(),
                all.0 == count + self@.chain_released(at, left as nat).0,
                all.1 == self@.chain_released(at, left as nat).1,
                all == old(self)@.chain_released(link, CHAIN_MAX as nat),
            decreases left,
        {
            let d = self.read_descriptor(at);
            if !d.is_owned() {
                return count;
            }
            self.hand_back(at, &d);
            count = count + 1;
            if d.is_last() {
                return count;
            }
            at = d.next;
            left = left - 1;
        }
        count
    }
}

/// A chain of one owned descriptor in ordinary memory: gathering gives the words
/// of its buffer and clears its owner bit, and no other byte of memory changes.
pub proof fn law_gathered_descriptor(s: SocState, at: u32, i: int)
    requires
        s.wf(),
        crate::soc::ram::plain(at as int, 12),
        ({
            let d = s.descriptor(at).0;
            &&& d.owned() && d.last()
            &&& crate::soc::ram::plain(d.buf as int, d.len() as int)
        }),
        crate::soc::ram::plain(i, 1),
        crate::soc::ram::apart(i, 1, at as int, 4),
    ensures
        ({
            let d = s.descriptor(at).0;
            let (got, t) = s.chain_gathered(at, Gathered::nothing(), CHAIN_MAX as nat);
            &&& got.words.len() == d.len() / 4
            &&& forall|k: int| 0 <= k < d.len() / 4 ==> #[trigger] got.words[k] == s.ram32(
                d.buf + 4 * k,
            )
            &&& got.eof == Some(at)
            &&& t.ram32(at as int) == d.control & crate::soc::dma::OWNER_CLEAR
            &&& t.ram8(i) == s.ram8(i)
        }),
{
    reveal(SocState::wf);
    crate::soc::ram::lemma_plain_read32(s, at);
    crate::soc::ram::lemma_plain_read32(s, (at + 4) as u32);
    crate::soc::ram::lemma_plain_read32(s, (at + 8) as u32);
    let d = s.descriptor(at).0;
    assert(s.descriptor(at).1 == s);
    lemma_words_read(s, d.buf, (d.len() / 4) as nat);
    let v = d.control & crate::soc::dma::OWNER_CLEAR;
    crate::soc::ram::lemma_plain_write32(s, at, v);
    crate::soc::ram::lemma_ram_store(s, at, v, at as int);
    crate::bytes::lemma_word_store_frame(
        s.mem.sram,
        at - crate::memmap::DRAM_BASE,
        v,
        i - crate::memmap::DRAM_BASE,
    );
    let (got, t) = s.chain_gathered(at, Gathered::nothing(), CHAIN_MAX as nat);
    assert(got.words =~= s.words_read(d.buf, (d.len() / 4) as nat).0);
    assert(t == s.write32(at, v));
}

proof fn lemma_words_read(s: SocState, buf: u32, n: nat)
    requires
        s.wf(),
        crate::soc::ram::plain(buf as int, (4 * n) as int),
    ensures
        s.words_read(buf, n).1 == s,
        s.words_read(buf, n).0.len() == n,
        forall|k: int| 0 <= k < n ==> #[trigger] s.words_read(buf, n).0[k] == s.ram32(buf + 4 * k),
    decreases n,
{
    if n > 0 {
        lemma_words_read(s, buf, (n - 1) as nat);
        crate::soc::ram::lemma_plain_read32(s, (buf + 4 * (n - 1)) as u32);
    }
}

} // verus!
