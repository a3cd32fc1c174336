//! What the start of a DMA link sets off.
//!
//! The controller tells which channel link was started and for which peripheral.
//! Chains of the blocks here are walked at once; audio and camera links become
//! streams that are served tick by tick. The chain of a block outside is left to
//! be gathered or filled; one that no block serves is handed back as it is. With
//! the DMA clock off nothing moves.

use super::stream::DmaCursor;
use super::{Soc, SocState};
use vstd::prelude::*;

verus! {

/// Peripheral numbers of the DMA controller.
pub const PERIPH_SPI2: u32 = 0;

pub const PERIPH_SPI3: u32 = 1;

pub const PERIPH_UHCI0: u32 = 2;

pub const PERIPH_I2S0: u32 = 3;

pub const PERIPH_I2S1: u32 = 4;

pub const PERIPH_LCD: u32 = 5;

pub const PERIPH_AES: u32 = 6;

pub const PERIPH_SHA: u32 = 7;

pub const PERIPH_ADC: u32 = 8;

pub const PERIPH_RMT: u32 = 9;

/// Channels, and the size of a channel's register block.
pub const CHANNELS: u32 = 5;

pub const CHANNEL_BLOCK: u32 = 0xC0;

/// A started link.
#[derive(Clone, Copy, PartialEq, Eq, Structural)]
pub struct LinkStart {
    pub ch: usize,
    /// Output link; else input link.
    pub is_out: bool,
    /// First descriptor of the started link.
    pub link: u32,
    /// Peripheral selected for it.
    pub peri: u32,
    /// The channel copies memory to memory.
    pub mem_trans: bool,
    /// State of the channel's two links.
    pub out_started: bool,
    pub in_started: bool,
    pub out_link: u32,
    pub in_link: u32,
}

/// What came of it.
#[derive(Clone, Copy, PartialEq, Eq, Structural)]
pub enum LinkOutcome {
    /// The clock is off: nothing happened, and nothing is done.
    Stopped,
    /// The link waits for its counterpart or for an outside master.
    Armed,
    /// Both chains of the channel are done; the last output descriptor.
    Copied(Option<u32>),
    /// The chain is done; the last output descriptor.
    Walked(Option<u32>),
    /// The link is served tick by tick from this position.
    Stream(DmaCursor),
    /// A block outside this crate is served: its chain is still to be gathered or
    /// filled.
    Outside,
}

impl SocState {
    /// The SPI controller of a peripheral number works as a slave.
    pub open spec fn slave_link(self, peri: u32) -> bool {
        (peri == PERIPH_SPI2 && self.spi2.is_slave()) || (peri == PERIPH_SPI3
            && self.spi3.is_slave())
    }

    /// A started link is served by a stream.
    pub open spec fn stream_link(l: LinkStart) -> bool {
        l.peri == PERIPH_I2S0 || l.peri == PERIPH_I2S1 || (l.peri == PERIPH_LCD && !l.is_out)
    }

    /// Stream position at the start of a link.
    pub open spec fn stream_start(l: LinkStart) -> DmaCursor {
        DmaCursor { active: true, ch: l.ch, desc: l.link, off: 0 }
    }

    /// A block outside takes the data of an output link, or gives that of an input
    /// link.
    pub open spec fn outside_link(l: LinkStart) -> bool {
        if l.is_out {
            l.peri == PERIPH_RMT || l.peri == PERIPH_SHA || l.peri == PERIPH_AES || l.peri
                == PERIPH_LCD
        } else {
            l.peri == PERIPH_AES || l.peri == PERIPH_ADC
        }
    }

    /// The chain of a link is walked at once.
    pub open spec fn chain_walked(self, l: LinkStart) -> (LinkOutcome, SocState) {
        let max = crate::soc::dma::CHAIN_MAX as nat;
        if l.peri == PERIPH_SPI2 || l.peri == PERIPH_SPI3 {
            if l.is_out {
                let (eof, s) = self.spi_sent(l.peri as int, l.link);
                (LinkOutcome::Walked(eof), s)
            } else {
                (LinkOutcome::Walked(None), self.spi_received(l.peri as int, l.link, max).1)
            }
        } else if l.peri == PERIPH_UHCI0 {
            if l.is_out {
                let (eof, s) = self.uhci_chain_sent(l.link, None, max);
                (LinkOutcome::Walked(eof), s)
            } else {
                (LinkOutcome::Walked(None), self.uhci_received(l.link, max).1)
            }
        } else if SocState::outside_link(l) {
            (LinkOutcome::Outside, self)
        } else {
            (LinkOutcome::Walked(None), self.chain_released(l.link, max).1)
        }
    }

    /// A link is started. Memory to memory runs once both links of the channel
    /// are started; a slave's link waits for its master.
    pub open spec fn link_started(self, l: LinkStart) -> (LinkOutcome, SocState) {
        if !self.clk_on(true, 6) {
            (LinkOutcome::Stopped, self)
        } else if l.mem_trans {
            if l.out_started && l.in_started {
                let (eof, s) = self.chains_copied(
                    l.out_link,
                    l.in_link,
                    None,
                    crate::soc::dma::CHAIN_MAX as nat,
                );
                (LinkOutcome::Copied(eof), s)
            } else {
                (LinkOutcome::Armed, self)
            }
        } else if self.slave_link(l.peri) {
            (LinkOutcome::Armed, self)
        } else if SocState::stream_link(l) {
            (LinkOutcome::Stream(SocState::stream_start(l)), self)
        } else {
            self.chain_walked(l)
        }
    }
}

impl Soc {
    fn walk_chain(&mut self, l: &LinkStart) -> (r: LinkOutcome)
        requires
            old(self)@.wf(),
        ensures
            (r, final(self)@) == old(self)@.chain_walked(*l),
            final(self)@.wf(),
    {
        if l.peri == PERIPH_SPI2 || l.peri == PERIPH_SPI3 {
            if l.is_out {
                LinkOutcome::Walked(self.dma_spi_out(l.peri as usize, l.link))
            } else {
                self.dma_spi_in(l.peri as usize, l.link);
                LinkOutcome::Walked(None)
            }
        } else if l.peri == PERIPH_UHCI0 {
            if l.is_out {
                LinkOutcome::Walked(self.dma_uhci_out(l.link))
            } else {
                self.dma_uhci_in(l.link);
                LinkOutcome::Walked(None)
            }
        } else if (l.is_out && (l.peri == PERIPH_RMT || l.peri == PERIPH_SHA || l.peri == PERIPH_AES
            || l.peri == PERIPH_LCD)) || (!l.is_out && (l.peri == PERIPH_AES || l.peri
            == PERIPH_ADC)) {
            LinkOutcome::Outside
        } else {
            self.dma_release(l.link);
            LinkOutcome::Walked(None)
        }
    }

    /// Start a link.
    pub fn dma_start(&mut self, l: LinkStart) -> (r: LinkOutcome)
        requires
            old(self)@.wf(),
        ensures
            (r, final(self)@) == old(self)@.link_started(l),
            final(self)@.wf(),
    {
        if !self.clk_on(true, 6) {
            return LinkOutcome::Stopped;
        }
        if l.mem_trans {
            if l.out_started && l.in_started {
                return LinkOutcome::Copied(self.dma_mem_copy(l.out_link, l.in_link));
            }
            return LinkOutcome::Armed;
        }
        if (l.peri == PERIPH_SPI2 && self.spi2.is_slave()) || (l.peri == PERIPH_SPI3
            && self.spi3.is_slave()) {
            return LinkOutcome::Armed;
        }
        if l.peri == PERIPH_I2S0 || l.peri == PERIPH_I2S1 || (l.peri == PERIPH_LCD && !l.is_out) {
            return LinkOutcome::Stream(
                DmaCursor { active: true, ch: l.ch, desc: l.link, off: 0 },
            );
        }
        self.walk_chain(&l)
    }
}

/// Audio port that a peripheral selection names.
pub open spec fn audio_port(value: u32) -> Option<usize> {
    if value == PERIPH_I2S0 {
        Some(0)
    } else if value == PERIPH_I2S1 {
        Some(1)
    } else {
        None
    }
}

/// A stream that starts late: the peripheral of a link is selected after the
/// link has been started, while the port has no stream in that direction. Told
/// is the channel, the direction and the audio port.
pub open spec fn late_start(
    off: u32,
    value: u32,
    out_started: bool,
    in_started: bool,
    out_active: Seq<bool>,
    in_active: Seq<bool>,
) -> Option<(usize, bool, usize)> {
    let ch = (off / CHANNEL_BLOCK) as usize;
    let reg = off % CHANNEL_BLOCK;
    match audio_port(value) {
        Some(port) => if off >= CHANNELS * CHANNEL_BLOCK {
            None
        } else if reg == 0xA8 && out_started && !out_active[port as int] {
            Some((ch, true, port))
        } else if reg == 0x48 && in_started && !in_active[port as int] {
            Some((ch, false, port))
        } else {
            None
        },
        None => None,
    }
}

/// Find out whether a register write starts a stream late. The flags tell which
/// audio ports have a stream already.
pub fn late_stream(
    off: u32,
    value: u32,
    out_started: bool,
    in_started: bool,
    out_active: [bool; 2],
    in_active: [bool; 2],
) -> (r: Option<(usize, bool, usize)>)
    ensures
        r == late_start(off, value, out_started, in_started, out_active@, in_active@),
{
    let port: usize = if value == PERIPH_I2S0 {
        0
    } else if value == PERIPH_I2S1 {
        1
    } else {
        return None;
    };
    if off >= CHANNELS * CHANNEL_BLOCK {
        return None;
    }
    let ch: usize = (off / CHANNEL_BLOCK) as usize;
    let reg: u32 = off % CHANNEL_BLOCK;
    if reg == 0xA8 && out_started && !out_active[port] {
        Some((ch, true, port))
    } else if reg == 0x48 && in_started && !in_active[port] {
        Some((ch, false, port))
    } else {
        None
    }
}

/// Channel of a camera stream that starts late: the capture is started by bit 29
/// of the camera control register, while the link was started before and no
/// stream runs. `waiting` tells which channels have a started camera link.
pub open spec fn late_capture(
    off: u32,
    value: u32,
    active: bool,
    fresh: bool,
    waiting: Seq<bool>,
    ch: int,
) -> bool {
    &&& off == 0x08 && value & 0x2000_0000 != 0 && !active && fresh
    &&& waiting[ch]
    &&& forall|k: int| 0 <= k < ch ==> !waiting[k]
}

/// Find out whether a register write that lands with `value` starts the camera
/// stream late; the first waiting channel carries it.
pub fn late_camera(off: u32, value: u32, active: bool, fresh: bool, waiting: [bool; 5]) -> (r: Option<
    usize,
>)
    ensures
        r matches Some(ch) ==> ch < 5 && late_capture(
            off,
            value,
            active,
            fresh,
            waiting@,
            ch as int,
        ),
        r is None ==> forall|ch: int|
            0 <= ch < 5 ==> !late_capture(off, value, active, fresh, waiting@, ch),
{
    if off != 0x08 || value & 0x2000_0000 == 0 || active || !fresh {
        return None;
    }
    let mut ch: usize = 0;
    while ch < 5
        invariant
            ch <= 5,
            off == 0x08 && value & 0x2000_0000 != 0 && !active && fresh,
            forall|k: int| 0 <= k < ch ==> !waiting@[k],
        decreases 5 - ch,
    {
        if waiting[ch] {
            return Some(ch);
        }
        ch = ch + 1;
    }
    None
}

/// Without the DMA clock the start of a link moves nothing, and no link of a
/// peripheral outside this crate touches the chip.
pub proof fn law_dma_needs_its_clock(s: SocState, l: LinkStart)
    ensures
        !s.clk_on(true, 6) ==> s.link_started(l) == (LinkOutcome::Stopped, s),
        s.link_started(l).0 == LinkOutcome::Outside ==> s.link_started(l).1 == s,
{
}

} // verus!
