//! USB-Serial-JTAG console.
//!
//! Transmitted bytes go to the host at once, or wait while the controller clock
//! is off. Finishing a packet raises the transmit-empty interrupt, which the
//! periodic host poll raises again after it has been cleared. Received bytes wait
//! in a FIFO and raise the receive interrupt until it is drained. Remaining
//! registers are latched.

use std::collections::VecDeque;
use vstd::prelude::*;

verus! {

broadcast use crate::bits::lemma_and_le;

/// Interrupt matrix source.
pub const USB_SERIAL_JTAG_INTR_SOURCE: u32 = 96;

pub const EP1: u32 = 0x00;

pub const EP1_CONF: u32 = 0x04;

pub const INT_RAW: u32 = 0x08;

pub const INT_ST: u32 = 0x0C;

pub const INT_ENA: u32 = 0x10;

pub const INT_CLR: u32 = 0x14;

pub const OUT_EP1_ST: u32 = 0x3C;

pub const CONF_WR_DONE: u32 = 1;

pub const CONF_SERIAL_IN_EP_DATA_FREE: u32 = 1 << 1;

pub const CONF_SERIAL_OUT_EP_DATA_AVAIL: u32 = 1 << 2;

pub const INT_SERIAL_OUT_RECV_PKT: u32 = 1 << 2;

pub const INT_SERIAL_IN_EMPTY: u32 = 1 << 3;

/// Fields of `OUT_EP1_ST`: write address, read address, received count.
pub const OUT_EP1_WR_ADDR: u32 = 0xFE;

pub const OUT_EP1_RD_ADDR: u32 = 0xFE00;

pub const OUT_EP1_REC_DATA_CNT: u32 = 0xFE_0000;

/// Words in the register block.
pub const REG_COUNT: usize = 33;

/// Bytes held while the clock is off.
pub const HOLD_BYTES: usize = 1024;

/// Host polls between a raised and the next transmit-empty interrupt.
pub const REASSERT_POLLS: u32 = 100;

/// The controller.
#[verifier::ext_equal]
pub struct JtagState {
    pub regs: Seq<u32>,
    /// Bytes emitted to the host.
    pub tx_out: Seq<u8>,
    /// Receive FIFO.
    pub rx: Seq<u8>,
    /// The transmit-empty interrupt was cleared and is to be raised again.
    pub need_reassert: bool,
    /// Bytes staged while the clock is off.
    pub hold: Seq<u8>,
    /// The controller clock runs.
    pub sys_clk: bool,
    /// Host polls until the interrupt is raised again.
    pub reassert_countdown: u32,
}

impl JtagState {
    pub open spec fn wf(self) -> bool {
        self.regs.len() == REG_COUNT
    }

    pub open spec fn reset() -> Self {
        JtagState {
            regs: Seq::new(REG_COUNT as nat, |i: int| 0u32),
            tx_out: Seq::empty(),
            rx: Seq::empty(),
            need_reassert: false,
            hold: Seq::empty(),
            sys_clk: true,
            reassert_countdown: 0,
        }
    }

    pub open spec fn reg(self, off: u32) -> u32 {
        self.regs[(off / 4) as int]
    }

    pub open spec fn with_reg(self, off: u32, v: u32) -> Self {
        JtagState { regs: self.regs.update((off / 4) as int, v), ..self }
    }

    pub open spec fn latching(self, bits: u32) -> Self {
        self.with_reg(INT_RAW, self.reg(INT_RAW) | bits)
    }

    pub open spec fn int_st(self) -> u32 {
        self.reg(INT_RAW) & self.reg(INT_ENA)
    }

    /// The controller after a host poll: staged bytes leave, and a cleared
    /// transmit-empty interrupt is raised again once its countdown is over, if
    /// it is enabled.
    pub open spec fn polled(self) -> Self {
        let s = JtagState { tx_out: self.tx_out + self.hold, hold: Seq::empty(), ..self };
        if !self.need_reassert {
            s
        } else if self.reassert_countdown > 0 {
            JtagState { reassert_countdown: (self.reassert_countdown - 1) as u32, ..s }
        } else if self.reg(INT_ENA) & INT_SERIAL_IN_EMPTY != 0 {
            (JtagState {
                need_reassert: false,
                reassert_countdown: REASSERT_POLLS,
                ..s
            }).latching(INT_SERIAL_IN_EMPTY)
        } else {
            JtagState { need_reassert: false, ..s }
        }
    }

    /// The controller after a byte arrives.
    pub open spec fn received(self, byte: u8) -> Self {
        (JtagState { rx: self.rx.push(byte), ..self }).latching(INT_SERIAL_OUT_RECV_PKT)
    }

    pub open spec fn read(self, off: u32) -> u32 {
        if off == EP1 {
            if self.rx.len() > 0 {
                self.rx[0] as u32
            } else {
                0
            }
        } else if off == EP1_CONF {
            if self.rx.len() > 0 {
                CONF_SERIAL_IN_EP_DATA_FREE | CONF_SERIAL_OUT_EP_DATA_AVAIL
            } else {
                CONF_SERIAL_IN_EP_DATA_FREE
            }
        } else if off == INT_ST {
            self.int_st()
        } else if off == OUT_EP1_ST {
            let n = (self.rx.len() as u32) & 0x7F;
            ((n << 1) & OUT_EP1_WR_ADDR) | ((n << 9) & OUT_EP1_RD_ADDR) | ((n << 17)
                & OUT_EP1_REC_DATA_CNT)
        } else if off % 4 == 0 && off < 4 * REG_COUNT {
            self.reg(off)
        } else {
            0
        }
    }

    /// The controller after a read: an endpoint read pops one byte, and the
    /// receive interrupt drops once the FIFO is empty.
    pub open spec fn after_read(self, off: u32) -> Self {
        if off == EP1 && self.rx.len() > 0 {
            let popped = JtagState { rx: self.rx.skip(1), ..self };
            if popped.rx.len() == 0 {
                popped.with_reg(INT_RAW, self.reg(INT_RAW) & !INT_SERIAL_OUT_RECV_PKT)
            } else {
                popped
            }
        } else {
            self
        }
    }

    pub open spec fn written(self, off: u32, value: u32) -> Self {
        let byte = (value & 0xFF) as u8;
        if off == EP1 {
            if self.sys_clk {
                JtagState { tx_out: self.tx_out.push(byte), ..self }
            } else if self.hold.len() < HOLD_BYTES {
                JtagState { hold: self.hold.push(byte), ..self }
            } else {
                self
            }
        } else if off == EP1_CONF {
            if value & CONF_WR_DONE != 0 {
                self.latching(INT_SERIAL_IN_EMPTY)
            } else {
                self
            }
        } else if off == INT_CLR {
            JtagState {
                need_reassert: self.need_reassert || (self.reg(INT_RAW) & value)
                    & INT_SERIAL_IN_EMPTY != 0,
                ..self.with_reg(INT_RAW, self.reg(INT_RAW) & !value)
            }
        } else if off % 4 == 0 && off < 4 * REG_COUNT {
            self.with_reg(off, value)
        } else {
            self
        }
    }
}

/// The USB-Serial-JTAG controller.
pub struct UsbSerialJtag {
    regs: [u32; REG_COUNT],
    tx_out: Vec<u8>,
    rx: VecDeque<u8>,
    need_reassert: bool,
    hold: Vec<u8>,
    sys_clk: bool,
    reassert_countdown: u32,
}

impl View for UsbSerialJtag {
    type V = JtagState;

    closed spec fn view(&self) -> JtagState {
        JtagState {
            regs: self.regs@,
            tx_out: self.tx_out@,
            rx: self.rx@,
            need_reassert: self.need_reassert,
            hold: self.hold@,
            sys_clk: self.sys_clk,
            reassert_countdown: self.reassert_countdown,
        }
    }
}

impl Default for UsbSerialJtag {
    fn default() -> (d: Self)
        ensures
            d@ == JtagState::reset(),
    {
        Self::new()
    }
}

/// The tables of every value have their sizes.
pub proof fn lemma_sizes(d: UsbSerialJtag)
    ensures
        d@.wf(),
{
}

impl UsbSerialJtag {
    pub fn new() -> (d: Self)
        ensures
            d@ == JtagState::reset(),
            d@.wf(),
    {
        let d = UsbSerialJtag {
            regs: [0u32; REG_COUNT],
            tx_out: Vec::new(),
            rx: VecDeque::new(),
            need_reassert: false,
            hold: Vec::new(),
            sys_clk: true,
            reassert_countdown: 0,
        };
        assert(d@ =~= JtagState::reset());
        d
    }

    /// Tell the controller whether its clock runs.
    pub fn set_sys_clk(&mut self, on: bool)
        ensures
            final(self)@ == (JtagState { sys_clk: on, ..old(self)@ }),
    {
        self.sys_clk = on;
    }

    /// Take the bytes emitted to the host.
    pub fn take_tx(&mut self) -> (bytes: Vec<u8>)
        ensures
            bytes@ == old(self)@.tx_out,
            final(self)@ == (JtagState { tx_out: Seq::empty(), ..old(self)@ }),
    {
        let mut out: Vec<u8> = Vec::new();
        core::mem::swap(&mut out, &mut self.tx_out);
        assert(self@ =~= (JtagState { tx_out: Seq::empty(), ..old(self)@ }));
        out
    }

    /// Periodic host poll.
    pub fn tick(&mut self)
        ensures
            final(self)@ == old(self)@.polled(),
    {
        self.tx_out.append(&mut self.hold);
        assert(self.tx_out@ =~= old(self)@.tx_out + old(self)@.hold);
        assert(self.hold@ =~= Seq::<u8>::empty());
        if self.need_reassert {
            if self.reassert_countdown > 0 {
                self.reassert_countdown = self.reassert_countdown - 1;
            } else {
                self.need_reassert = false;
                if self.regs[(INT_ENA / 4) as usize] & INT_SERIAL_IN_EMPTY != 0 {
                    self.latch(INT_SERIAL_IN_EMPTY);
                    self.reassert_countdown = REASSERT_POLLS;
                }
            }
        }
        assert(self@ =~= old(self)@.polled());
    }

    fn latch(&mut self, bits: u32)
        ensures
            final(self)@ == old(self)@.latching(bits),
    {
        let raw: u32 = self.regs[(INT_RAW / 4) as usize];
        self.regs[(INT_RAW / 4) as usize] = raw | bits;
    }

    /// Number of emitted bytes that wait to be taken.
    pub fn tx_len(&self) -> (n: usize)
        ensures
            n == self@.tx_out.len(),
    {
        self.tx_out.len()
    }

    /// Receive one byte.
    pub fn inject_rx(&mut self, byte: u8)
        ensures
            final(self)@ == old(self)@.received(byte),
    {
        self.rx.push_back(byte);
        self.latch(INT_SERIAL_OUT_RECV_PKT);
    }

    /// An enabled interrupt is pending.
    pub fn int_pending(&self) -> (r: bool)
        ensures
            r == (self@.int_st() != 0),
    {
        (self.regs[(INT_RAW / 4) as usize] & self.regs[(INT_ENA / 4) as usize]) != 0
    }

    pub fn read32(&mut self, offset: u32) -> (v: u32)
        ensures
            v == old(self)@.read(offset),
            final(self)@ == old(self)@.after_read(offset),
    {
        match offset {
            EP1 => {
                match self.rx.pop_front() {
                    Some(b) => {
                        assert(self.rx@ =~= old(self)@.rx.skip(1));
                        if self.rx.len() == 0 {
                            let raw: u32 = self.regs[(INT_RAW / 4) as usize];
                            self.regs[(INT_RAW / 4) as usize] = raw & !INT_SERIAL_OUT_RECV_PKT;
                        }
                        b as u32
                    },
                    None => 0,
                }
            },
            EP1_CONF => if self.rx.len() > 0 {
                CONF_SERIAL_IN_EP_DATA_FREE | CONF_SERIAL_OUT_EP_DATA_AVAIL
            } else {
                CONF_SERIAL_IN_EP_DATA_FREE
            },
            INT_ST => self.regs[(INT_RAW / 4) as usize] & self.regs[(INT_ENA / 4) as usize],
            OUT_EP1_ST => {
                let n: u32 = (self.rx.len() as u32) & 0x7F;
                ((n << 1) & OUT_EP1_WR_ADDR) | ((n << 9) & OUT_EP1_RD_ADDR) | ((n << 17)
                    & OUT_EP1_REC_DATA_CNT)
            },
            _ => if offset % 4 == 0 && offset < 4 * REG_COUNT as u32 {
                self.regs[(offset / 4) as usize]
            } else {
                0
            },
        }
    }

    pub fn write32(&mut self, offset: u32, value: u32)
        ensures
            final(self)@ == old(self)@.written(offset, value),
    {
        match offset {
            EP1 => {
                if self.sys_clk {
                    self.tx_out.push((value & 0xFF) as u8);
                } else if self.hold.len() < HOLD_BYTES {
                    self.hold.push((value & 0xFF) as u8);
                }
            },
            EP1_CONF => {
                if value & CONF_WR_DONE != 0 {
                    self.latch(INT_SERIAL_IN_EMPTY);
                }
            },
            INT_CLR => {
                let raw: u32 = self.regs[(INT_RAW / 4) as usize];
                self.regs[(INT_RAW / 4) as usize] = raw & !value;
                if (raw & value) & INT_SERIAL_IN_EMPTY != 0 {
                    self.need_reassert = true;
                }
            },
            _ => if offset % 4 == 0 && offset < 4 * REG_COUNT as u32 {
                self.regs[(offset / 4) as usize] = value;
            },
        }
    }
}

/// Console output keeps its order: bytes held while the clock was off leave
/// before later ones, and none is lost up to the holding capacity.
pub proof fn law_output_order(s: JtagState, a: u32, b: u32)
    requires
        s.wf(),
        !s.sys_clk,
        s.hold.len() == 0,
    ensures
        (JtagState { sys_clk: true, ..s.written(EP1, a).polled() }).written(EP1, b).tx_out
            == s.tx_out.push((a & 0xFF) as u8).push((b & 0xFF) as u8),
{
    assert(s.written(EP1, a).polled().tx_out =~= s.tx_out.push((a & 0xFF) as u8));
}

/// The receive FIFO delivers bytes in order, and its interrupt is up exactly
/// while bytes wait.
pub proof fn law_receive_order(s: JtagState, a: u8, b: u8)
    requires
        s.wf(),
        s.rx.len() == 0,
    ensures
        s.received(a).received(b).read(EP1) == a,
        s.received(a).received(b).after_read(EP1).read(EP1) == b,
        s.received(a).received(b).after_read(EP1).reg(INT_RAW) & INT_SERIAL_OUT_RECV_PKT
            == INT_SERIAL_OUT_RECV_PKT,
        s.received(a).received(b).after_read(EP1).after_read(EP1).reg(INT_RAW)
            & INT_SERIAL_OUT_RECV_PKT == 0,
{
    let t = s.received(a).received(b);
    assert(t.rx =~= seq![a, b]);
    assert(t.after_read(EP1).rx =~= seq![b]);
    assert(t.after_read(EP1).after_read(EP1).rx =~= Seq::<u8>::empty());
    crate::bits::lemma_or_sets(s.received(a).reg(INT_RAW), INT_SERIAL_OUT_RECV_PKT);
    let raw = t.reg(INT_RAW);
    crate::bits::lemma_masks(raw, 1u32 << 2, 0);
}

/// A cleared transmit-empty interrupt that is enabled comes back with a host
/// poll once its countdown is over.
pub proof fn law_transmit_empty_returns(s: JtagState)
    requires
        s.wf(),
        s.need_reassert,
        s.reassert_countdown == 0,
        s.reg(INT_ENA) & INT_SERIAL_IN_EMPTY != 0,
    ensures
        s.polled().reg(INT_RAW) & INT_SERIAL_IN_EMPTY == INT_SERIAL_IN_EMPTY,
        !s.polled().need_reassert,
        s.polled().reassert_countdown == REASSERT_POLLS,
{
    crate::bits::lemma_or_sets(s.reg(INT_RAW), INT_SERIAL_IN_EMPTY);
}

/// Interrupt clear: exactly the written bits clear.
pub proof fn law_interrupt_clear(s: JtagState, v: u32)
    requires
        s.wf(),
    ensures
        s.written(INT_CLR, v).reg(INT_RAW) == s.reg(INT_RAW) & !v,
        s.read(INT_ST) == s.reg(INT_RAW) & s.reg(INT_ENA),
{
}

} // verus!
