//! Descriptor chains: how the DMA controller moves data between memory and the
//! blocks.
//!
//! A descriptor holds a control word (bit 31: owned by the DMA, bit 30: last of
//! its chain, bits 23:12: length), the buffer address and the next descriptor.
//! A walk goes from descriptor to descriptor as long as they are owned, and
//! hands each one back by clearing its owner bit. A chain that never ends is cut
//! after as many descriptors as there are addresses.

use super::{Soc, SocState};
use crate::bytes::{lane, word_from_le};
use crate::spi::{SpiState, STAGED_MAX};
use crate::uart::UartState;
use crate::uhci::UhciState;
use vstd::prelude::*;

verus! {

broadcast use crate::soc::sizes::lemma_sized;

/// Descriptors that one walk visits at most.
pub const CHAIN_MAX: u32 = 0xFFFF_FFFF;

/// Owner bit cleared.
pub const OWNER_CLEAR: u32 = 0x7FFF_FFFF;

/// A descriptor as read.
#[derive(Clone, Copy, PartialEq, Eq, Structural)]
pub struct Descriptor {
    pub control: u32,
    pub buf: u32,
    pub next: u32,
}

impl Descriptor {
    pub open spec fn owned(self) -> bool {
        (self.control >> 31) & 1 != 0
    }

    pub open spec fn last(self) -> bool {
        (self.control >> 30) & 1 == 1 || self.next == 0
    }

    pub open spec fn len(self) -> u32 {
        (self.control >> 12) & 0xFFF
    }

    pub fn is_owned(&self) -> (r: bool)
        ensures
            r == self.owned(),
    {
        (self.control >> 31) & 1 != 0
    }

    pub fn is_last(&self) -> (r: bool)
        ensures
            r == self.last(),
    {
        (self.control >> 30) & 1 == 1 || self.next == 0
    }

    pub fn length(&self) -> (n: u32)
        ensures
            n == self.len(),
            n <= 0xFFF,
    {
        broadcast use crate::bits::lemma_and_le;

        (self.control >> 12) & 0xFFF
    }
}

/// The bytes of a word.
pub open spec fn word_bytes(w: u32) -> Seq<u8> {
    seq![
        crate::bytes::byte_lane(w, 0),
        crate::bytes::byte_lane(w, 1),
        crate::bytes::byte_lane(w, 2),
        crate::bytes::byte_lane(w, 3),
    ]
}

impl SocState {
    /// The descriptor at `at`.
    pub open spec fn descriptor(self, at: u32) -> (Descriptor, SocState) {
        let control = self.read32(at);
        let s1 = self.after_read32(at);
        let buf = s1.read32(at.wrapping_add(4));
        let s2 = s1.after_read32(at.wrapping_add(4));
        let next = s2.read32(at.wrapping_add(8));
        (Descriptor { control, buf, next }, s2.after_read32(at.wrapping_add(8)))
    }

    /// The descriptor is handed back.
    pub open spec fn handed_back(self, at: u32, d: Descriptor) -> SocState {
        self.write32(at, d.control & OWNER_CLEAR)
    }

    /// Bytes of the first `n` words of a buffer.
    pub open spec fn words_gathered(self, buf: u32, n: nat) -> (Seq<u8>, SocState)
        decreases n,
    {
        if n == 0 {
            (Seq::empty(), self)
        } else {
            let (b, s) = self.words_gathered(buf, (n - 1) as nat);
            let a = buf.wrapping_add((4 * (n - 1)) as u32);
            (b + word_bytes(s.read32(a)), s.after_read32(a))
        }
    }

    /// The bytes of a buffer, read word by word.
    pub open spec fn gathered(self, buf: u32, len: u32) -> (Seq<u8>, SocState) {
        let (b, s) = self.words_gathered(buf, (len / 4) as nat);
        let a = buf.wrapping_add((4 * (len / 4)) as u32);
        if len % 4 == 0 {
            (b, s)
        } else {
            (b + word_bytes(s.read32(a)).take((len % 4) as int), s.after_read32(a))
        }
    }

    /// `n` bytes are copied one by one.
    pub open spec fn bytes_copied(self, from: u32, to: u32, n: nat) -> SocState
        decreases n,
    {
        if n == 0 {
            self
        } else {
            let s = self.bytes_copied(from, to, (n - 1) as nat);
            let a = from.wrapping_add((n - 1) as u32);
            s.after_read8(a).write8(to.wrapping_add((n - 1) as u32), s.read8(a))
        }
    }

    /// Memory to memory: the two chains are walked in step, each pair copying as
    /// much as both hold. The last source descriptor comes first, else `eof`.
    pub open spec fn chains_copied(self, from: u32, to: u32, eof: Option<u32>, fuel: nat) -> (
        Option<u32>,
        SocState,
    )
        decreases fuel,
    {
        if fuel == 0 {
            (eof, self)
        } else {
            let (o, s1) = self.descriptor(from);
            if !o.owned() {
                (eof, s1)
            } else {
                let (i, s2) = s1.descriptor(to);
                if !i.owned() {
                    (eof, s2)
                } else {
                    let n = if o.len() <= i.len() {
                        o.len()
                    } else {
                        i.len()
                    };
                    let s3 = s2.bytes_copied(o.buf, i.buf, n as nat).handed_back(
                        from,
                        o,
                    ).handed_back(to, i);
                    if o.last() || i.last() {
                        (Some(from), s3)
                    } else {
                        s3.chains_copied(o.next, i.next, Some(from), (fuel - 1) as nat)
                    }
                }
            }
        }
    }

    /// The chain's bytes are staged for a transfer on SPI channel `chan`. What
    /// would not fit the staging ends the walk.
    pub open spec fn spi_staged(self, chan: int, at: u32, eof: Option<u32>, fuel: nat) -> (
        Option<u32>,
        SocState,
    )
        decreases fuel,
    {
        if fuel == 0 {
            (eof, self)
        } else {
            let (d, s1) = self.descriptor(at);
            if !d.owned() {
                (eof, s1)
            } else {
                let (bytes, s2) = s1.gathered(d.buf, d.len());
                if s2.spi(chan).dma_tx.len() + bytes.len() > STAGED_MAX {
                    (eof, s2)
                } else {
                    let s3 = s2.with_spi(
                        chan,
                        SpiState {
                            dma_tx: s2.spi(chan).dma_tx + bytes,
                            ..s2.spi(chan)
                        },
                    ).handed_back(at, d);
                    if d.last() {
                        (Some(at), s3)
                    } else {
                        s3.spi_staged(chan, d.next, Some(at), (fuel - 1) as nat)
                    }
                }
            }
        }
    }

    /// An output chain of SPI channel `chan` is started: its bytes are sent in
    /// one transfer.
    pub open spec fn spi_sent(self, chan: int, link: u32) -> (Option<u32>, SocState) {
        let (eof, s) = self.spi_staged(chan, link, None, CHAIN_MAX as nat);
        if eof is Some {
            (eof, s.with_spi(chan, s.spi(chan).dma_triggered()))
        } else {
            (eof, s)
        }
    }

    /// The first `n` words received on SPI channel `chan` are stored.
    pub open spec fn spi_words_stored(self, chan: int, buf: u32, n: nat) -> SocState
        decreases n,
    {
        if n == 0 {
            self
        } else {
            let s = self.spi_words_stored(chan, buf, (n - 1) as nat);
            let off = (4 * (n - 1)) as u32;
            s.write32(buf.wrapping_add(off), s.spi(chan).dma_rx_word(off))
        }
    }

    /// An input chain of SPI channel `chan` is started: each descriptor is given
    /// what the last transfer received, in whole words. The number of filled
    /// descriptors comes first.
    pub open spec fn spi_received(self, chan: int, at: u32, fuel: nat) -> (nat, SocState)
        decreases fuel,
    {
        if fuel == 0 {
            (0, self)
        } else {
            let (d, s1) = self.descriptor(at);
            if !d.owned() {
                (0, s1)
            } else {
                let s2 = s1.spi_words_stored(chan, d.buf, (d.len() / 4) as nat).handed_back(at, d);
                if d.last() {
                    (1, s2)
                } else {
                    let (n, s3) = s2.spi_received(chan, d.next, (fuel - 1) as nat);
                    (n + 1, s3)
                }
            }
        }
    }

    /// UART that the UHCI moves data for, where both its clocks run.
    pub open spec fn uhci_uart(self) -> Option<usize> {
        if self.uhci.clk_on() && self.clk_on(false, 8) {
            self.uhci.uart_sel()
        } else {
            None
        }
    }

    /// A buffer's bytes are framed and sent by the UHCI's UART; without one they
    /// are lost.
    pub open spec fn uhci_sent(self, bytes: Seq<u8>) -> SocState {
        let s = match self.uhci_uart() {
            Some(n) => self.with_uart(
                n as int,
                UartState {
                    tx_out: self.uart(n as int).tx_out + self.uhci.encoded(bytes),
                    ..self.uart(n as int)
                },
            ),
            None => self,
        };
        SocState {
            uhci: UhciState { int_raw: s.uhci.int_raw | crate::uhci::INT_TX_START, ..s.uhci },
            ..s
        }
    }

    /// An output chain of the UHCI is started. The last descriptor comes first.
    pub open spec fn uhci_chain_sent(self, at: u32, eof: Option<u32>, fuel: nat) -> (
        Option<u32>,
        SocState,
    )
        decreases fuel,
    {
        if fuel == 0 {
            (eof, self)
        } else {
            let (d, s1) = self.descriptor(at);
            if !d.owned() {
                (eof, s1)
            } else {
                let (bytes, s2) = s1.gathered(d.buf, d.len());
                let s3 = s2.uhci_sent(bytes).handed_back(at, d);
                if d.last() {
                    (Some(at), s3)
                } else {
                    s3.uhci_chain_sent(d.next, Some(at), (fuel - 1) as nat)
                }
            }
        }
    }
}

impl Soc {
    pub fn read_descriptor(&mut self, at: u32) -> (d: Descriptor)
        requires
            old(self)@.wf(),
        ensures
            (d, final(self)@) == old(self)@.descriptor(at),
            final(self)@.wf(),
    {
        let control: u32 = self.read32(at);
        let buf: u32 = self.read32(at.wrapping_add(4));
        let next: u32 = self.read32(at.wrapping_add(8));
        Descriptor { control, buf, next }
    }

    pub fn hand_back(&mut self, at: u32, d: &Descriptor)
        requires
            old(self)@.wf(),
        ensures
            final(self)@ == old(self)@.handed_back(at, *d),
            final(self)@.wf(),
    {
        self.write32(at, d.control & OWNER_CLEAR);
    }

    fn gather(&mut self, buf: u32, len: u32) -> (bytes: Vec<u8>)
        requires
            old(self)@.wf(),
            len <= 0xFFF,
        ensures
            (bytes@, final(self)@) == old(self)@.gathered(buf, len),
            bytes@.len() == len,
            final(self)@.wf(),
    {
        let ghost start = self@;
        let mut bytes: Vec<u8> = Vec::new();
        let n: u32 = len / 4;
        let mut i: u32 = 0;
        while i < n
            invariant
                i <= n,
                n <= 0x3FF,
                self@.wf(),
                (bytes@, self@) == start.words_gathered(buf, i as nat),
                bytes@.len() == 4 * i,
            decreases n - i,
        {
            let ghost before = bytes@;
            let w: u32 = self.read32(buf.wrapping_add(4 * i));
            bytes.push(lane(w, 0));
            bytes.push(lane(w, 1));
            bytes.push(lane(w, 2));
            bytes.push(lane(w, 3));
            i = i + 1;
            assert(bytes@ =~= before + word_bytes(w));
        }
        let rest: u32 = len % 4;
        if rest != 0 {
            let ghost before = bytes@;
            let w: u32 = self.read32(buf.wrapping_add(4 * n));
            bytes.push(lane(w, 0));
            if rest >= 2 {
                bytes.push(lane(w, 1));
            }
            if rest >= 3 {
                bytes.push(lane(w, 2));
            }
            assert(bytes@ =~= before + word_bytes(w).take(rest as int));
        }
        bytes
    }

    fn copy_bytes(&mut self, from: u32, to: u32, n: u32)
        requires
            old(self)@.wf(),
        ensures
            final(self)@ == old(self)@.bytes_copied(from, to, n as nat),
            final(self)@.wf(),
    {
        let ghost start = self@;
        let mut k: u32 = 0;
        while k < n
            invariant
                k <= n,
                self@.wf(),
                self@ == start.bytes_copied(from, to, k as nat),
            decreases n - k,
        {
            let b: u32 = self.read8(from.wrapping_add(k));
            self.write8(to.wrapping_add(k), b);
            k = k + 1;
        }
    }

    /// Copy memory to memory along two descriptor chains. The last source
    /// descriptor is returned.
    pub fn dma_mem_copy(&mut self, out_link: u32, in_link: u32) -> (eof: Option<u32>)
        requires
            old(self)@.wf(),
        ensures
            (eof, final(self)@) == old(self)@.chains_copied(
                out_link,
                in_link,
                None,
                CHAIN_MAX as nat,
            ),
            final(self)@.wf(),
    {
        let mut from: u32 = out_link;
        let mut to: u32 = in_link;
        let mut eof: Option<u32> = None;
        let mut left: u32 = CHAIN_MAX;
        let ghost all = self@.chains_copied(out_link, in_link, None, CHAIN_MAX as nat);
        while left > 0
            invariant
                self@.wf(),
                all == self@.chains_copied(from, to, eof, left as nat),
                all == old(self)@.chains_copied(out_link, in_link, None, CHAIN_MAX as nat),
            decreases left,
        {
            let o = self.read_descriptor(from);
            if !o.is_owned() {
                return eof;
            }
            let i = self.read_descriptor(to);
            if !i.is_owned() {
                return eof;
            }
            let n: u32 = if o.length() <= i.length() {
                o.length()
            } else {
                i.length()
            };
            self.copy_bytes(o.buf, i.buf, n);
            self.hand_back(from, &o);
            self.hand_back(to, &i);
            eof = Some(from);
            if o.is_last() || i.is_last() {
                return eof;
            }
            from = o.next;
            to = i.next;
            left = left - 1;
        }
        eof
    }

    fn spi_room(&self, chan: usize, n: usize) -> (r: bool)
        requires
            chan < 2,
        ensures
            r == (self@.spi(chan as int).dma_tx.len() + n <= STAGED_MAX),
    {
        let staged: usize = if chan == 0 {
            self.spi2.dma_staged()
        } else {
            self.spi3.dma_staged()
        };
        (staged as u128) + (n as u128) <= STAGED_MAX as u128
    }

    fn spi_feed(&mut self, chan: usize, bytes: &[u8])
        requires
            old(self)@.wf(),
            chan < 2,
            old(self)@.spi(chan as int).dma_tx.len() + bytes@.len() <= STAGED_MAX,
        ensures
            final(self)@ == old(self)@.with_spi(
                chan as int,
                SpiState {
                    dma_tx: old(self)@.spi(chan as int).dma_tx + bytes@,
                    ..old(self)@.spi(chan as int)
                },
            ),
            final(self)@.wf(),
    {
        reveal(SocState::wf);
        if chan == 0 {
            self.spi2.spi_dma_feed(bytes);
        } else {
            self.spi3.spi_dma_feed(bytes);
        }
        assert(self@ =~= old(self)@.with_spi(
            chan as int,
            SpiState {
                dma_tx: old(self)@.spi(chan as int).dma_tx + bytes@,
                ..old(self)@.spi(chan as int)
            },
        ));
    }

    fn spi_trigger(&mut self, chan: usize)
        requires
            old(self)@.wf(),
            chan < 2,
        ensures
            final(self)@ == old(self)@.with_spi(
                chan as int,
                old(self)@.spi(chan as int).dma_triggered(),
            ),
            final(self)@.wf(),
    {
        reveal(SocState::wf);
        if chan == 0 {
            self.spi2.dma_trigger();
        } else {
            self.spi3.dma_trigger();
        }
        assert(self@ =~= old(self)@.with_spi(
            chan as int,
            old(self)@.spi(chan as int).dma_triggered(),
        ));
    }

    fn spi_stage(&mut self, chan: usize, link: u32) -> (eof: Option<u32>)
        requires
            old(self)@.wf(),
            chan < 2,
        ensures
            (eof, final(self)@) == old(self)@.spi_staged(
                chan as int,
                link,
                None,
                CHAIN_MAX as nat,
            ),
            final(self)@.wf(),
    {
        let mut at: u32 = link;
        let mut eof: Option<u32> = None;
        let mut left: u32 = CHAIN_MAX;
        let ghost all = self@.spi_staged(chan as int, link, None, CHAIN_MAX as nat);
        while left > 0
            invariant
                chan < 2,
                self@.wf(),
                all == self@.spi_staged(chan as int, at, eof, left as nat),
                all == old(self)@.spi_staged(chan as int, link, None, CHAIN_MAX as nat),
            decreases left,
        {
            let d = self.read_descriptor(at);
            if !d.is_owned() {
                return eof;
            }
            let bytes: Vec<u8> = self.gather(d.buf, d.length());
            if !self.spi_room(chan, bytes.len()) {
                return eof;
            }
            self.spi_feed(chan, bytes.as_slice());
            self.hand_back(at, &d);
            eof = Some(at);
            if d.is_last() {
                return eof;
            }
            at = d.next;
            left = left - 1;
        }
        eof
    }

    /// Start an output chain of SPI channel `chan`. The last descriptor is
    /// returned.
    pub fn dma_spi_out(&mut self, chan: usize, link: u32) -> (eof: Option<u32>)
        requires
            old(self)@.wf(),
            chan < 2,
        ensures
            (eof, final(self)@) == old(self)@.spi_sent(chan as int, link),
            final(self)@.wf(),
    {
        let eof = self.spi_stage(chan, link);
        if eof.is_some() {
            self.spi_trigger(chan);
        }
        eof
    }

    fn spi_store_words(&mut self, chan: usize, buf: u32, n: u32)
        requires
            old(self)@.wf(),
            chan < 2,
            n <= 0x3FF,
        ensures
            final(self)@ == old(self)@.spi_words_stored(chan as int, buf, n as nat),
            final(self)@.wf(),
    {
        let ghost start = self@;
        let mut k: u32 = 0;
        while k < n
            invariant
                k <= n,
                n <= 0x3FF,
                chan < 2,
                self@.wf(),
                self@ == start.spi_words_stored(chan as int, buf, k as nat),
            decreases n - k,
        {
            let off: u32 = 4 * k;
            let w: u32 = if chan == 0 {
                self.spi2.dma_rx_word(off)
            } else {
                self.spi3.dma_rx_word(off)
            };
            self.write32(buf.wrapping_add(off), w);
            k = k + 1;
        }
    }

    /// Start an input chain of SPI channel `chan`. The number of filled
    /// descriptors is returned.
    pub fn dma_spi_in(&mut self, chan: usize, link: u32) -> (filled: u32)
        requires
            old(self)@.wf(),
            chan < 2,
        ensures
            (filled as nat, final(self)@) == old(self)@.spi_received(
                chan as int,
                link,
                CHAIN_MAX as nat,
            ),
            final(self)@.wf(),
    {
        let mut at: u32 = link;
        let mut filled: u32 = 0;
        let mut left: u32 = CHAIN_MAX;
        let ghost all = self@.spi_received(chan as int, link, CHAIN_MAX as nat);
        while left > 0
            invariant
                chan < 2,
                left + filled == CHAIN_MAX,
                self@.wf(),
                all.0 == filled + self@.spi_received(chan as int, at, left as nat).0,
                all.1 == self@.spi_received(chan as int, at, left as nat).1,
                all == old(self)@.spi_received(chan as int, link, CHAIN_MAX as nat),
            decreases left,
        {
            let d = self.read_descriptor(at);
            if !d.is_owned() {
                return filled;
            }
            self.spi_store_words(chan, d.buf, d.length() / 4);
            self.hand_back(at, &d);
            filled = filled + 1;
            if d.is_last() {
                return filled;
            }
            at = d.next;
            left = left - 1;
        }
        filled
    }

    fn uhci_uart(&self) -> (n: Option<usize>)
        ensures
            n == self@.uhci_uart(),
    {
        if self.uhci.clk_on() && self.clk_on(false, 8) {
            self.uhci.uart_sel()
        } else {
            None
        }
    }

    fn uhci_send(&mut self, bytes: &[u8])
        requires
            old(self)@.wf(),
        ensures
            final(self)@ == old(self)@.uhci_sent(bytes@),
            final(self)@.wf(),
    {
        reveal(SocState::wf);
        match self.uhci_uart() {
            Some(n) => {
                let wire: Vec<u8> = self.uhci.slip_encode(bytes);
                if n == 0 {
                    self.uart0.push_tx(wire.as_slice());
                } else if n == 1 {
                    self.uart1.push_tx(wire.as_slice());
                } else {
                    self.uart2.push_tx(wire.as_slice());
                }
            },
            None => {},
        }
        self.uhci.latch_tx_start();
        assert(self@ =~= old(self)@.uhci_sent(bytes@));
    }

    /// Start an output chain of the UHCI. The last descriptor is returned.
    pub fn dma_uhci_out(&mut self, link: u32) -> (eof: Option<u32>)
        requires
            old(self)@.wf(),
        ensures
            (eof, final(self)@) == old(self)@.uhci_chain_sent(link, None, CHAIN_MAX as nat),
            final(self)@.wf(),
    {
        let mut at: u32 = link;
        let mut eof: Option<u32> = None;
        let mut left: u32 = CHAIN_MAX;
        let ghost all = self@.uhci_chain_sent(link, None, CHAIN_MAX as nat);
        while left > 0
            invariant
                self@.wf(),
                all == self@.uhci_chain_sent(at, eof, left as nat),
                all == old(self)@.uhci_chain_sent(link, None, CHAIN_MAX as nat),
            decreases left,
        {
            let d = self.read_descriptor(at);
            if !d.is_owned() {
                return eof;
            }
            let bytes: Vec<u8> = self.gather(d.buf, d.length());
            self.uhci_send(bytes.as_slice());
            self.hand_back(at, &d);
            eof = Some(at);
            if d.is_last() {
                return eof;
            }
            at = d.next;
            left = left - 1;
        }
        eof
    }
}

/// The word of up to four bytes, zero-filled.
pub open spec fn padded_word(b: Seq<u8>) -> u32 {
    crate::bytes::le_word(
        crate::memory::at(b, 0),
        crate::memory::at(b, 1),
        crate::memory::at(b, 2),
        crate::memory::at(b, 3),
    )
}

/// At most the first four bytes.
pub open spec fn four(b: Seq<u8>) -> Seq<u8> {
    if b.len() <= 4 {
        b
    } else {
        b.take(4)
    }
}

/// How many bytes of `data` still go to the head, of which `held` bytes are
/// there.
pub open spec fn head_share(capture: bool, held: int, data: Seq<u8>) -> int {
    if !capture {
        0
    } else if 2 - held <= data.len() {
        2 - held
    } else {
        data.len() as int
    }
}

impl SocState {
    /// Bytes are taken from UART `n`, four line bytes at a time, and deframed,
    /// until there are four or the line is dry.
    pub open spec fn uhci_taken(self, n: int, data: Seq<u8>) -> (Seq<u8>, SocState)
        decreases self.uart(n).rx.len(),
    {
        let rx = self.uart(n).rx;
        if data.len() >= 4 || rx.len() == 0 {
            (data, self)
        } else {
            let raw = four(rx);
            let s = self.with_uart(n, self.uart(n).taken(4));
            SocState { uhci: self.uhci.after_decode(raw), ..s }.uhci_taken(
                n,
                data + self.uhci.decoded(raw),
            )
        }
    }

    /// Up to four received bytes; what deframing gives beyond them is lost.
    pub open spec fn uhci_quad(self) -> (Seq<u8>, SocState) {
        match self.uhci_uart() {
            Some(n) => {
                let (data, s) = self.uhci_taken(n as int, Seq::empty());
                (four(data), s)
            },
            None => (Seq::empty(), self),
        }
    }

    /// `n` words of received bytes are stored, but for the head, which comes
    /// first.
    pub open spec fn uhci_words_stored(self, buf: u32, capture: bool, n: nat) -> (
        Seq<u8>,
        SocState,
    )
        decreases n,
    {
        if n == 0 {
            (Seq::empty(), self)
        } else {
            let (head, s1) = self.uhci_words_stored(buf, capture, (n - 1) as nat);
            let (data, s2) = s1.uhci_quad();
            let share = head_share(capture, head.len() as int, data);
            (
                head + data.take(share),
                s2.write32(
                    buf.wrapping_add((4 * (n - 1)) as u32),
                    padded_word(data.skip(share)),
                ),
            )
        }
    }

    /// The receive start is latched, after the captured head.
    pub open spec fn uhci_rx_started(self, head: Seq<u8>) -> SocState {
        let u = if head.len() > 0 {
            UhciState {
                rx_head: ((crate::memory::at(head, 1) as u32) << 8) | (head[0] as u32),
                ..self.uhci
            }
        } else {
            self.uhci
        };
        SocState { uhci: u.rx_started(), ..self }
    }

    /// An input chain of the UHCI is started: each descriptor is filled with
    /// received bytes in whole words, zeros once the line is dry. The number of
    /// filled descriptors comes first.
    pub open spec fn uhci_received(self, at: u32, fuel: nat) -> (nat, SocState)
        decreases fuel,
    {
        if fuel == 0 {
            (0, self)
        } else {
            let (d, s1) = self.descriptor(at);
            if !d.owned() {
                (0, s1)
            } else {
                let (head, s2) = s1.uhci_words_stored(
                    d.buf,
                    s1.uhci.head_capture(),
                    (d.len() / 4) as nat,
                );
                let s3 = s2.uhci_rx_started(head).handed_back(at, d);
                if d.last() {
                    (1, s3)
                } else {
                    let (n, s4) = s3.uhci_received(d.next, (fuel - 1) as nat);
                    (n + 1, s4)
                }
            }
        }
    }
}

fn pad_word(b: &Vec<u8>, from: usize) -> (w: u32)
    requires
        from <= b@.len(),
    ensures
        w == padded_word(b@.skip(from as int)),
{
    let ghost t = b@.skip(from as int);
    let n: usize = b.len() - from;
    let b0: u8 = if n > 0 {
        b[from]
    } else {
        0
    };
    let b1: u8 = if n > 1 {
        b[from + 1]
    } else {
        0
    };
    let b2: u8 = if n > 2 {
        b[from + 2]
    } else {
        0
    };
    let b3: u8 = if n > 3 {
        b[from + 3]
    } else {
        0
    };
    word_from_le(b0, b1, b2, b3)
}

impl Soc {
    fn uart_pending(&self, n: usize) -> (r: bool)
        requires
            n < 3,
        ensures
            r == (self@.uart(n as int).rx.len() > 0),
    {
        if n == 0 {
            self.uart0.rx_pending()
        } else if n == 1 {
            self.uart1.rx_pending()
        } else {
            self.uart2.rx_pending()
        }
    }

    fn uart_take(&mut self, n: usize) -> (raw: Vec<u8>)
        requires
            old(self)@.wf(),
            n < 3,
        ensures
            raw@ == four(old(self)@.uart(n as int).rx),
            final(self)@ == old(self)@.with_uart(n as int, old(self)@.uart(n as int).taken(4)),
            final(self)@.wf(),
    {
        reveal(SocState::wf);
        let raw: Vec<u8> = if n == 0 {
            self.uart0.take_rx(4)
        } else if n == 1 {
            self.uart1.take_rx(4)
        } else {
            self.uart2.take_rx(4)
        };
        assert(raw@ =~= four(old(self)@.uart(n as int).rx));
        assert(self@ =~= old(self)@.with_uart(n as int, old(self)@.uart(n as int).taken(4)));
        raw
    }

    fn uhci_decode(&mut self, raw: &[u8]) -> (data: Vec<u8>)
        requires
            old(self)@.wf(),
        ensures
            data@ == old(self)@.uhci.decoded(raw@),
            final(self)@ == (SocState {
                uhci: old(self)@.uhci.after_decode(raw@),
                ..old(self)@
            }),
            final(self)@.wf(),
    {
        reveal(SocState::wf);
        let data: Vec<u8> = self.uhci.slip_decode(raw);
        assert(self@ =~= SocState { uhci: old(self)@.uhci.after_decode(raw@), ..old(self)@ });
        data
    }

    fn uhci_take_quad(&mut self) -> (quad: Vec<u8>)
        requires
            old(self)@.wf(),
        ensures
            (quad@, final(self)@) == old(self)@.uhci_quad(),
            quad@.len() <= 4,
            final(self)@.wf(),
    {
        let mut data: Vec<u8> = Vec::new();
        match self.uhci_uart() {
            None => {},
            Some(n) => {
                proof {
                    crate::uhci::lemma_uart_sel(self@.uhci);
                }
                let ghost all = self@.uhci_taken(n as int, Seq::empty());
                assert(data@ =~= Seq::<u8>::empty());
                while data.len() < 4 && self.uart_pending(n)
                    invariant
                        n < 3,
                        self@.wf(),
                        all == self@.uhci_taken(n as int, data@),
                    decreases self@.uart(n as int).rx.len(),
                {
                    let raw: Vec<u8> = self.uart_take(n);
                    let mut more: Vec<u8> = self.uhci_decode(raw.as_slice());
                    data.append(&mut more);
                }
                assert(all == (data@, self@));
                if data.len() > 4 {
                    data.truncate(4);
                }
            },
        }
        data
    }

    fn uhci_store_words(&mut self, buf: u32, capture: bool, n: u32) -> (head: Vec<u8>)
        requires
            old(self)@.wf(),
            n <= 0x3FF,
        ensures
            (head@, final(self)@) == old(self)@.uhci_words_stored(buf, capture, n as nat),
            final(self)@.wf(),
    {
        let ghost start = self@;
        let mut head: Vec<u8> = Vec::new();
        let mut k: u32 = 0;
        assert(head@ =~= Seq::<u8>::empty());
        while k < n
            invariant
                k <= n <= 0x3FF,
                self@.wf(),
                head@.len() <= 2,
                (head@, self@) == start.uhci_words_stored(buf, capture, k as nat),
            decreases n - k,
        {
            let ghost held = head@;
            let quad: Vec<u8> = self.uhci_take_quad();
            let mut di: usize = 0;
            while capture && head.len() < 2 && di < quad.len()
                invariant
                    di <= quad@.len(),
                    held.len() <= 2,
                    head@.len() == held.len() + di,
                    head@.len() <= 2,
                    di > 0 ==> capture,
                    head@ == held + quad@.take(di as int),
                decreases quad@.len() - di,
            {
                head.push(quad[di]);
                di = di + 1;
                assert(head@ =~= held + quad@.take(di as int));
            }
            assert(di == head_share(capture, held.len() as int, quad@));
            let w: u32 = pad_word(&quad, di);
            self.write32(buf.wrapping_add(4 * k), w);
            k = k + 1;
        }
        head
    }

    fn uhci_start_rx(&mut self, head: &Vec<u8>)
        requires
            old(self)@.wf(),
        ensures
            final(self)@ == old(self)@.uhci_rx_started(head@),
            final(self)@.wf(),
    {
        reveal(SocState::wf);
        if head.len() > 0 {
            let hi: u8 = if head.len() > 1 {
                head[1]
            } else {
                0
            };
            self.uhci.set_rx_head(head[0], hi);
        }
        self.uhci.latch_rx_start();
        assert(self@ =~= old(self)@.uhci_rx_started(head@));
    }

    /// Start an input chain of the UHCI. The number of filled descriptors is
    /// returned.
    pub fn dma_uhci_in(&mut self, link: u32) -> (filled: u32)
        requires
            old(self)@.wf(),
        ensures
            (filled as nat, final(self)@) == old(self)@.uhci_received(link, CHAIN_MAX as nat),
            final(self)@.wf(),
    {
        let mut at: u32 = link;
        let mut filled: u32 = 0;
        let mut left: u32 = CHAIN_MAX;
        let ghost all = self@.uhci_received(link, CHAIN_MAX as nat);
        while left > 0
            invariant
                left + filled == CHAIN_MAX,
                self@.wf(),
                all.0 == filled + self@.uhci_received(at, left as nat).0,
                all.1 == self@.uhci_received(at, left as nat).1,
                all == old(self)@.uhci_received(link, CHAIN_MAX as nat),
            decreases left,
        {
            let d = self.read_descriptor(at);
            if !d.is_owned() {
                return filled;
            }
            let capture = self.uhci.head_capture();
            let head: Vec<u8> = self.uhci_store_words(d.buf, capture, d.length() / 4);
            self.uhci_start_rx(&head);
            self.hand_back(at, &d);
            filled = filled + 1;
            if d.is_last() {
                return filled;
            }
            at = d.next;
            left = left - 1;
        }
        filled
    }
}

} // verus!
