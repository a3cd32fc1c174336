//! TWAI (CAN 2.0B) controller.
//!
//! Registers are 8 bits wide, one per word. From `0x40` on they hold the
//! acceptance filter in reset mode and the 13-byte frame buffer in operational
//! mode. A transmission completes as soon as it is requested; in self-test mode
//! or on a self-reception request the frame is looped back into the receive
//! buffer if the acceptance filter passes it. Bus arbitration and error timing
//! are not modeled.

use vstd::prelude::*;

verus! {

broadcast use crate::bits::lemma_and_le;

pub const TWAI_BASE: u32 = 0x6000_C000;

/// Interrupt matrix source.
pub const TWAI_INTR_SOURCE: u32 = 37;

/// Bytes in the frame buffer.
pub const FRAME_LEN: usize = 13;

/// Mode bits: reset mode, self-test mode.
pub const MODE_RESET: u32 = 1;

pub const MODE_SELF_TEST: u32 = 1 << 2;

/// Command bits: transmit, release buffer, clear overrun, self-receive.
pub const CMD_TX: u32 = 1;

pub const CMD_RELEASE: u32 = 1 << 2;

pub const CMD_CLEAR_OVERRUN: u32 = 1 << 3;

pub const CMD_SELF_RX: u32 = 1 << 4;

/// Status bits: receive buffer, overrun.
pub const ST_RX: u32 = 1;

pub const ST_OVERRUN: u32 = 1 << 1;

/// Transmit buffer free and transmission complete.
pub const ST_TX_DONE: u32 = 0xC;

pub const ST_RECEIVING: u32 = 1 << 4;

pub const ST_SENDING: u32 = 1 << 5;

/// Interrupt bits: receive, transmit, overrun.
pub const INT_RX: u32 = 1;

pub const INT_TX: u32 = 1 << 1;

pub const INT_OVERRUN: u32 = 1 << 3;

/// The controller.
#[verifier::ext_equal]
pub struct TwaiState {
    pub mode: u32,
    pub status: u32,
    /// Raw pending interrupts.
    pub ir: u32,
    /// Interrupt enables.
    pub ier: u32,
    pub bt0: u32,
    pub bt1: u32,
    pub alc: u32,
    pub ecc: u32,
    pub ewl: u32,
    pub rxerr: u32,
    pub txerr: u32,
    /// Acceptance code and mask.
    pub acr: Seq<u8>,
    pub amr: Seq<u8>,
    /// Frame buffer.
    pub buf: Seq<u8>,
    pub clk_div: u32,
    /// A received frame waits.
    pub rx_full: bool,
}

impl TwaiState {
    pub open spec fn wf(self) -> bool {
        self.acr.len() == 4 && self.amr.len() == 4 && self.buf.len() == FRAME_LEN
    }

    /// Power-on state: reset mode, transmit buffer free.
    pub open spec fn reset() -> Self {
        TwaiState {
            mode: MODE_RESET,
            status: ST_TX_DONE,
            ir: 0,
            ier: 0,
            bt0: 0,
            bt1: 0,
            alc: 0,
            ecc: 0,
            ewl: 0,
            rxerr: 0,
            txerr: 0,
            acr: seq![0, 0, 0, 0],
            amr: seq![0, 0, 0, 0],
            buf: Seq::new(FRAME_LEN as nat, |i: int| 0u8),
            clk_div: 0,
            rx_full: false,
        }
    }

    pub open spec fn in_reset(self) -> bool {
        self.mode & MODE_RESET != 0
    }

    pub open spec fn int_st(self) -> u32 {
        self.ir & self.ier
    }

    /// The acceptance filter passes the frame: its first four bytes agree with
    /// the code under the mask.
    pub open spec fn accepts(self) -> bool {
        forall|i: int|
            #![trigger self.amr[i]]
            0 <= i < 4 ==> self.buf[i] & self.amr[i] == self.acr[i] & self.amr[i]
    }

    /// The controller after a transmission; with `self_rx` an accepted frame is
    /// received back, and overruns a frame that still waits.
    pub open spec fn transmitted(self, self_rx: bool) -> Self {
        let sent = TwaiState {
            status: (self.status | ST_TX_DONE) & !ST_SENDING,
            ir: self.ir | INT_TX,
            ..self
        };
        if self_rx && self.accepts() {
            let over = if self.rx_full {
                TwaiState { status: sent.status | ST_OVERRUN, ir: sent.ir | INT_OVERRUN, ..sent }
            } else {
                sent
            };
            TwaiState {
                rx_full: true,
                status: (over.status | ST_RX) & !ST_RECEIVING,
                ir: over.ir | INT_RX,
                ..over
            }
        } else {
            sent
        }
    }

    /// The controller after another node's frame: an accepted one takes the
    /// buffer, and overruns a frame that still waits. Reset mode hears nothing.
    pub open spec fn heard(self, frame: Seq<u8>) -> Self {
        let s = TwaiState { buf: frame, ..self };
        if self.in_reset() || !s.accepts() {
            self
        } else {
            TwaiState {
                rx_full: true,
                status: ((if self.rx_full {
                    self.status | ST_OVERRUN
                } else {
                    self.status
                }) | ST_RX) & !ST_RECEIVING,
                ir: (if self.rx_full {
                    self.ir | INT_OVERRUN
                } else {
                    self.ir
                }) | INT_RX,
                ..s
            }
        }
    }

    /// The controller after a command; reset mode ignores it.
    pub open spec fn commanded(self, value: u32) -> Self {
        if self.in_reset() {
            self
        } else {
            let s1 = if value & CMD_RELEASE != 0 {
                TwaiState {
                    rx_full: false,
                    status: self.status & !ST_RX,
                    ir: self.ir & !INT_RX,
                    ..self
                }
            } else {
                self
            };
            let s2 = if value & CMD_CLEAR_OVERRUN != 0 {
                TwaiState { status: s1.status & !ST_OVERRUN, ..s1 }
            } else {
                s1
            };
            if value & CMD_TX != 0 || value & CMD_SELF_RX != 0 {
                s2.transmitted(self.mode & MODE_SELF_TEST != 0 || value & CMD_SELF_RX != 0)
            } else {
                s2
            }
        }
    }

    /// The offset names a byte of the dual-purpose block.
    pub open spec fn in_block(off: u32) -> bool {
        0x40 <= off <= 0x70 && off % 4 == 0
    }

    pub open spec fn written(self, off: u32, value: u32) -> Self {
        let v = (value & 0xFF) as u8;
        let i = (off - 0x40) / 4;
        if off == 0x00 {
            TwaiState { mode: value & 0xF, ..self }
        } else if off == 0x04 {
            self.commanded(value)
        } else if off == 0x0C {
            TwaiState { ir: self.ir & !value, ..self }
        } else if off == 0x10 {
            TwaiState { ier: value & 0xFF, ..self }
        } else if off == 0x18 {
            TwaiState { bt0: value, ..self }
        } else if off == 0x1C {
            TwaiState { bt1: value, ..self }
        } else if off == 0x34 {
            TwaiState { ewl: value & 0xFF, ..self }
        } else if off == 0x38 {
            TwaiState { rxerr: value & 0xFF, ..self }
        } else if off == 0x3C {
            TwaiState { txerr: value & 0xFF, ..self }
        } else if Self::in_block(off) {
            if !self.in_reset() {
                TwaiState { buf: self.buf.update(i, v), ..self }
            } else if i < 4 {
                TwaiState { acr: self.acr.update(i, v), ..self }
            } else if i < 8 {
                TwaiState { amr: self.amr.update(i - 4, v), ..self }
            } else {
                self
            }
        } else if off == 0x7C {
            TwaiState { clk_div: value, ..self }
        } else {
            self
        }
    }

    pub open spec fn read(self, off: u32) -> u32 {
        let i = (off - 0x40) / 4;
        if off == 0x00 {
            self.mode
        } else if off == 0x08 {
            self.status & 0xF
        } else if off == 0x0C {
            self.ir
        } else if off == 0x10 {
            self.ier
        } else if off == 0x18 {
            self.bt0
        } else if off == 0x1C {
            self.bt1
        } else if off == 0x2C {
            self.alc
        } else if off == 0x30 {
            self.ecc
        } else if off == 0x34 {
            self.ewl
        } else if off == 0x38 {
            self.rxerr
        } else if off == 0x3C {
            self.txerr
        } else if Self::in_block(off) {
            if !self.in_reset() {
                self.buf[i] as u32
            } else if i < 4 {
                self.acr[i] as u32
            } else if i < 8 {
                self.amr[i - 4] as u32
            } else {
                0
            }
        } else if off == 0x74 {
            if self.rx_full {
                1
            } else {
                0
            }
        } else if off == 0x7C {
            self.clk_div
        } else {
            0
        }
    }

    /// The controller after a read: reading the interrupt register clears all
    /// but the receive interrupt.
    pub open spec fn after_read(self, off: u32) -> Self {
        if off == 0x0C {
            TwaiState { ir: self.ir & 0x1, ..self }
        } else {
            self
        }
    }
}

/// The controller.
pub struct Twai {
    mode: u32,
    status: u32,
    ir: u32,
    ier: u32,
    bt0: u32,
    bt1: u32,
    alc: u32,
    ecc: u32,
    ewl: u32,
    rxerr: u32,
    txerr: u32,
    acr: [u8; 4],
    amr: [u8; 4],
    buf: [u8; FRAME_LEN],
    clk_div: u32,
    rx_full: bool,
}

impl View for Twai {
    type V = TwaiState;

    closed spec fn view(&self) -> TwaiState {
        TwaiState {
            mode: self.mode,
            status: self.status,
            ir: self.ir,
            ier: self.ier,
            bt0: self.bt0,
            bt1: self.bt1,
            alc: self.alc,
            ecc: self.ecc,
            ewl: self.ewl,
            rxerr: self.rxerr,
            txerr: self.txerr,
            acr: self.acr@,
            amr: self.amr@,
            buf: self.buf@,
            clk_div: self.clk_div,
            rx_full: self.rx_full,
        }
    }
}

/// The tables of every value have their sizes.
pub proof fn lemma_sizes(t: Twai)
    ensures
        t@.wf(),
{
}

impl Twai {
    pub fn new() -> (t: Self)
        ensures
            t@ == TwaiState::reset(),
            t@.wf(),
    {
        let t = Twai {
            mode: MODE_RESET,
            status: ST_TX_DONE,
            ir: 0,
            ier: 0,
            bt0: 0,
            bt1: 0,
            alc: 0,
            ecc: 0,
            ewl: 0,
            rxerr: 0,
            txerr: 0,
            acr: [0u8; 4],
            amr: [0u8; 4],
            buf: [0u8; FRAME_LEN],
            clk_div: 0,
            rx_full: false,
        };
        assert(t@ =~= TwaiState::reset());
        t
    }

    /// An enabled interrupt is pending.
    pub fn int_pending(&self) -> (r: bool)
        ensures
            r == (self@.int_st() != 0),
    {
        self.ir & self.ier != 0
    }

    /// Pending interrupts that are enabled.
    pub fn int_st(&self) -> (st: u32)
        ensures
            st == self@.int_st(),
    {
        self.ir & self.ier
    }

    fn in_reset(&self) -> (r: bool)
        ensures
            r == self@.in_reset(),
    {
        self.mode & MODE_RESET != 0
    }

    /// The acceptance filter passes the frame in the buffer.
    fn accepts(&self) -> (r: bool)
        ensures
            r == self@.accepts(),
    {
        let mut i: usize = 0;
        while i < 4
            invariant
                i <= 4,
                forall|k: int|
                    #![trigger self@.amr[k]]
                    0 <= k < i ==> self@.buf[k] & self@.amr[k] == self@.acr[k] & self@.amr[k],
            decreases 4 - i,
        {
            if self.buf[i] & self.amr[i] != self.acr[i] & self.amr[i] {
                assert(self@.amr[i as int] == self.amr[i as int]);
                return false;
            }
            i = i + 1;
        }
        true
    }

    /// Transmit the frame in the buffer.
    fn transmit(&mut self, self_rx: bool)
        ensures
            final(self)@ == old(self)@.transmitted(self_rx),
    {
        self.status = (self.status | ST_TX_DONE) & !ST_SENDING;
        self.ir = self.ir | INT_TX;
        if self_rx && self.accepts() {
            if self.rx_full {
                self.status = self.status | ST_OVERRUN;
                self.ir = self.ir | INT_OVERRUN;
            }
            self.rx_full = true;
            self.status = (self.status | ST_RX) & !ST_RECEIVING;
            self.ir = self.ir | INT_RX;
        }
    }

    /// Receive a frame that another node has sent.
    pub fn inject_rx(&mut self, frame: [u8; FRAME_LEN])
        ensures
            final(self)@ == old(self)@.heard(frame@),
    {
        if self.in_reset() {
            return ;
        }
        let waiting = self.buf;
        self.buf = frame;
        assert(self@ =~= TwaiState { buf: frame@, ..old(self)@ });
        if self.accepts() {
            if self.rx_full {
                self.status = self.status | ST_OVERRUN;
                self.ir = self.ir | INT_OVERRUN;
            }
            self.rx_full = true;
            self.status = (self.status | ST_RX) & !ST_RECEIVING;
            self.ir = self.ir | INT_RX;
        } else {
            self.buf = waiting;
        }
        assert(self@ =~= old(self)@.heard(frame@));
    }

    pub fn write32(&mut self, off: u32, value: u32)
        ensures
            final(self)@ == old(self)@.written(off, value),
    {
        let v: u8 = (value & 0xFF) as u8;
        match off {
            0x00 => self.mode = value & 0xF,
            0x04 => self.do_command(value),
            0x0C => self.ir = self.ir & !value,
            0x10 => self.ier = value & 0xFF,
            0x18 => self.bt0 = value,
            0x1C => self.bt1 = value,
            0x34 => self.ewl = value & 0xFF,
            0x38 => self.rxerr = value & 0xFF,
            0x3C => self.txerr = value & 0xFF,
            0x7C => self.clk_div = value,
            _ => if 0x40 <= off && off <= 0x70 && off % 4 == 0 {
                let i: usize = ((off - 0x40) / 4) as usize;
                if !self.in_reset() {
                    self.buf[i] = v;
                } else if i < 4 {
                    self.acr[i] = v;
                } else if i < 8 {
                    self.amr[i - 4] = v;
                }
            },
        }
    }

    /// Run a command.
    fn do_command(&mut self, value: u32)
        ensures
            final(self)@ == old(self)@.commanded(value),
    {
        if self.in_reset() {
            return;
        }
        if value & CMD_RELEASE != 0 {
            self.rx_full = false;
            self.status = self.status & !ST_RX;
            self.ir = self.ir & !INT_RX;
        }
        if value & CMD_CLEAR_OVERRUN != 0 {
            self.status = self.status & !ST_OVERRUN;
        }
        let self_rx: bool = self.mode & MODE_SELF_TEST != 0 || value & CMD_SELF_RX != 0;
        if value & CMD_TX != 0 || value & CMD_SELF_RX != 0 {
            self.transmit(self_rx);
        }
    }

    pub fn read32(&mut self, off: u32) -> (v: u32)
        ensures
            v == old(self)@.read(off),
            final(self)@ == old(self)@.after_read(off),
    {
        match off {
            0x00 => self.mode,
            0x08 => self.status & 0xF,
            0x0C => {
                let v: u32 = self.ir;
                self.ir = self.ir & 0x1;
                v
            },
            0x10 => self.ier,
            0x18 => self.bt0,
            0x1C => self.bt1,
            0x2C => self.alc,
            0x30 => self.ecc,
            0x34 => self.ewl,
            0x38 => self.rxerr,
            0x3C => self.txerr,
            0x74 => if self.rx_full {
                1
            } else {
                0
            },
            0x7C => self.clk_div,
            _ => if 0x40 <= off && off <= 0x70 && off % 4 == 0 {
                let i: usize = ((off - 0x40) / 4) as usize;
                if !self.in_reset() {
                    self.buf[i] as u32
                } else if i < 4 {
                    self.acr[i] as u32
                } else if i < 8 {
                    self.amr[i - 4] as u32
                } else {
                    0
                }
            } else {
                0
            },
        }
    }
}

impl Default for Twai {
    /// A controller with every register zero, outside reset mode.
    fn default() -> (t: Self)
        ensures
            t@ == (TwaiState { mode: 0, status: 0, ..TwaiState::reset() }),
    {
        let mut t = Twai::new();
        t.mode = 0;
        t.status = 0;
        t
    }
}

/// Self-reception: an accepted frame is received back unchanged, raises both the
/// transmit and the receive interrupt, and counts as one waiting frame.
pub proof fn law_self_reception(s: TwaiState, i: int)
    requires
        s.wf(),
        !s.in_reset(),
        s.accepts(),
        !s.rx_full,
        0 <= i < FRAME_LEN,
    ensures
        s.written(0x04, CMD_SELF_RX).rx_full,
        s.written(0x04, CMD_SELF_RX).buf == s.buf,
        s.written(0x04, CMD_SELF_RX).ir & INT_RX == INT_RX,
        s.written(0x04, CMD_SELF_RX).read(0x74) == 1,
        s.written(0x04, CMD_SELF_RX).read((0x40 + 4 * i) as u32) == s.buf[i],
{
    crate::bits::lemma_constants();
    crate::bits::lemma_or_sets(s.ir | INT_TX, INT_RX);
}

/// A mask of zero accepts every frame.
pub proof fn law_zero_mask_accepts_all(s: TwaiState)
    requires
        s.wf(),
        forall|i: int| 0 <= i < 4 ==> s.amr[i] == 0,
    ensures
        s.accepts(),
{
    assert forall|i: int|
        #![trigger s.amr[i]]
        0 <= i < 4 implies s.buf[i] & s.amr[i] == s.acr[i] & s.amr[i] by {
        let b = s.buf[i];
        let a = s.acr[i];
        assert(b & 0u8 == a & 0u8) by (bit_vector);
    }
}

/// Reset mode ignores commands.
pub proof fn law_reset_mode_is_silent(s: TwaiState, v: u32)
    requires
        s.in_reset(),
    ensures
        s.written(0x04, v) == s,
{
}

/// A frame received while one still waits raises the overrun.
pub proof fn law_overrun(s: TwaiState)
    requires
        s.wf(),
        s.accepts(),
        s.rx_full,
    ensures
        s.transmitted(true).ir & INT_OVERRUN == INT_OVERRUN,
{
    let ir = s.ir | INT_TX;
    crate::bits::lemma_masks(ir, 1u32 << 3, 1);
}

/// The receive interrupt survives a read of the interrupt register and is
/// cleared by releasing the buffer.
pub proof fn law_receive_interrupt(s: TwaiState)
    requires
        s.wf(),
        !s.in_reset(),
        s.ir & INT_RX == INT_RX,
    ensures
        s.after_read(0x0C).ir == INT_RX,
        s.written(0x04, CMD_RELEASE).ir & INT_RX == 0,
        !s.written(0x04, CMD_RELEASE).rx_full,
{
    let ir = s.ir;
    crate::bits::lemma_constants();
    crate::bits::lemma_masks(ir, 1, 0);
}

} // verus!
