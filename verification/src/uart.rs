//! UART controllers (UART0 to UART2).
//!
//! Transmitted bytes leave at once, unless hardware flow control holds them until
//! CTS allows. Received bytes enter a FIFO of the hardware's depth; bytes beyond
//! it are dropped. Reaching the full threshold raises `RXFIFO_FULL`, and a line
//! that stays idle with data pending raises `RXFIFO_TOUT`. RS485 echo and the
//! loopback test mode feed transmitted bytes back into the receiver. Remaining
//! registers are latched.

use std::collections::VecDeque;
use vstd::prelude::*;

verus! {

broadcast use crate::bits::lemma_and_le;

pub const UART_FIFO: u32 = 0x00;

pub const UART_INT_RAW: u32 = 0x04;

pub const UART_INT_ST: u32 = 0x08;

pub const UART_INT_ENA: u32 = 0x0C;

pub const UART_INT_CLR: u32 = 0x10;

pub const UART_CLKDIV: u32 = 0x14;

pub const UART_AUTOBAUD: u32 = 0x18;

pub const UART_STATUS: u32 = 0x1C;

pub const UART_CONF0: u32 = 0x20;

pub const UART_CONF1: u32 = 0x24;

pub const UART_LOWPULSE: u32 = 0x28;

pub const UART_HIGHPULSE: u32 = 0x2C;

pub const UART_RXD_CNT: u32 = 0x30;

pub const UART_RS485_CONF: u32 = 0x4C;

pub const UART_MEM_CONF: u32 = 0x60;

pub const UART_MEM_RX_STATUS: u32 = 0x64;

pub const UART_DATE: u32 = 0x78;

/// RS485 mode with the receiver hearing the transmitter.
pub const RS485_ECHO: u32 = 0x9;

pub const INT_RXFIFO_FULL: u32 = 1;

pub const INT_TXFIFO_EMPTY: u32 = 1 << 1;

pub const INT_RXFIFO_OVF: u32 = 1 << 4;

pub const INT_CTS_CHG: u32 = 1 << 6;

pub const INT_RXFIFO_TOUT: u32 = 1 << 8;

pub const INT_TX_DONE: u32 = 1 << 14;

/// Transmitter empty and idle.
pub const INT_TX_IDLE: u32 = 0x4002;

/// Count fields and thresholds are 10 bits wide.
pub const COUNT_MASK: u32 = 0x3FF;

/// Transmit count field of the status register, in place.
pub const STATUS_TX_CNT: u32 = 0x3FF_0000;

/// Idle modem lines.
pub const STATUS_MODEM_IDLE: u32 = 0xE000_C000;

pub const STATUS_CTSN: u32 = 1 << 14;

pub const STATUS_RTSN: u32 = 1 << 30;

pub const STATUS_TXD: u32 = 1 << 31;

pub const CONF0_TXD_BRK: u32 = 1 << 8;

pub const CONF0_LOOPBACK: u32 = 1 << 14;

pub const CONF0_TX_FLOW_EN: u32 = 1 << 15;

pub const CONF0_RX_FLOW_EN: u32 = 1 << 22;

pub const CONF1_RX_TOUT_EN: u32 = 1 << 23;

/// Divisor field of the clock register.
pub const CLKDIV_DIV_MASK: u32 = 0xFFF;

/// Bit time of 115200 baud, in cycles of the 80 MHz bus clock.
pub const DEFAULT_BIT_TICKS: u64 = 694;

/// GPIO matrix signals of the modem lines, by UART.
pub const UART_CTS_SIG: [u32; 3] = [13, 16, 19];

pub const UART_RTS_SIG: [u32; 3] = [13, 16, 19];

/// Hardware FIFO depth in bytes.
pub const FIFO_DEPTH: usize = 128;

/// Words in the register block.
pub const REG_COUNT: usize = 32;

/// A UART.
#[verifier::ext_equal]
pub struct UartState {
    pub regs: Seq<u32>,
    /// Bytes emitted on the line.
    pub tx_out: Seq<u8>,
    /// Receive FIFO.
    pub rx: Seq<u8>,
    /// A byte has arrived since the flag was last taken.
    pub rx_edge: bool,
    /// Bytes held back by flow control.
    pub tx_hold: Seq<u8>,
    /// Level of the CTS input (1 stops the transmitter).
    pub cts: u32,
    /// Ticks since the last received byte or timeout.
    pub tout_idle: u64,
}

/// A threshold of zero counts as one.
pub open spec fn at_least_one(v: u32) -> u32 {
    if v == 0 {
        1
    } else {
        v
    }
}

impl UartState {
    pub open spec fn wf(self) -> bool {
        self.regs.len() == REG_COUNT
    }

    pub open spec fn reset() -> Self {
        UartState {
            regs: Seq::new(REG_COUNT as nat, |i: int| 0u32).update(
                (UART_STATUS / 4) as int,
                STATUS_MODEM_IDLE,
            ).update((UART_INT_RAW / 4) as int, INT_TX_IDLE).update(
                (UART_MEM_CONF / 4) as int,
                0x14_0000,
            ).update((UART_CONF1 / 4) as int, 0x1_8060),
            tx_out: Seq::empty(),
            rx: Seq::empty(),
            rx_edge: false,
            tx_hold: Seq::empty(),
            cts: 1,
            tout_idle: 0,
        }
    }

    pub open spec fn reg(self, off: u32) -> u32 {
        self.regs[(off / 4) as int]
    }

    pub open spec fn with_reg(self, off: u32, v: u32) -> Self {
        UartState { regs: self.regs.update((off / 4) as int, v), ..self }
    }

    pub open spec fn latching(self, bits: u32) -> Self {
        self.with_reg(UART_INT_RAW, self.reg(UART_INT_RAW) | bits)
    }

    /// The status register's receive count mirrors the FIFO length.
    pub open spec fn with_rx_count(self) -> Self {
        self.with_reg(
            UART_STATUS,
            (self.reg(UART_STATUS) & !COUNT_MASK) | ((self.rx.len() as u32) & COUNT_MASK),
        )
    }

    /// The transmitter may shift.
    pub open spec fn can_tx(self) -> bool {
        self.reg(UART_CONF0) & CONF0_TX_FLOW_EN == 0 || self.cts == 0
    }

    /// Receive count at which `RXFIFO_FULL` latches.
    pub open spec fn full_threshold(self) -> u32 {
        at_least_one(self.reg(UART_CONF1) & COUNT_MASK)
    }

    /// The UART after a byte arrives. A full FIFO drops it; the arrival still
    /// counts as activity on the line.
    pub open spec fn received(self, byte: u8) -> Self {
        let edge = UartState { rx_edge: true, ..self };
        if self.rx.len() >= FIFO_DEPTH {
            edge
        } else {
            let stored = (UartState {
                rx: self.rx.push(byte),
                tout_idle: 0,
                ..edge
            }).with_rx_count();
            let counted = stored.with_reg(
                UART_RXD_CNT,
                stored.reg(UART_RXD_CNT).wrapping_add(1),
            );
            if counted.rx.len() >= counted.full_threshold() {
                counted.latching(INT_RXFIFO_FULL)
            } else {
                counted
            }
        }
    }

    /// Transmitted bytes are echoed by RS485 mode.
    pub open spec fn echoes(self) -> bool {
        self.reg(UART_RS485_CONF) & RS485_ECHO == RS485_ECHO && self.reg(UART_CONF0) & CONF0_TXD_BRK
            == 0
    }

    pub open spec fn loops_back(self) -> bool {
        self.reg(UART_CONF0) & CONF0_LOOPBACK != 0
    }

    /// The UART after a byte is shifted out, with its echo and loopback.
    pub open spec fn shifted(self, byte: u8) -> Self {
        let out = UartState { tx_out: self.tx_out.push(byte), ..self };
        let echoed = if self.echoes() {
            out.received(byte)
        } else {
            out
        };
        if self.loops_back() {
            echoed.received(byte)
        } else {
            echoed
        }
    }

    /// The UART after a run of bytes is shifted out.
    pub open spec fn shifted_all(self, bytes: Seq<u8>) -> Self
        decreases bytes.len(),
    {
        if bytes.len() == 0 {
            self
        } else {
            self.shifted_all(bytes.drop_last()).shifted(bytes.last())
        }
    }

    /// The UART after the held bytes are shifted out.
    pub open spec fn flushed(self) -> Self {
        if self.tx_hold.len() == 0 {
            self
        } else {
            (UartState { tx_hold: Seq::empty(), ..self }).shifted_all(self.tx_hold).latching(
                INT_TX_IDLE,
            )
        }
    }

    /// The UART after the CTS input is driven: a change latches its interrupt,
    /// and a change to go flushes the held bytes.
    pub open spec fn with_cts(self, level: u32) -> Self {
        if level & 1 == self.cts {
            self
        } else {
            let changed = (UartState { cts: level & 1, ..self }).latching(INT_CTS_CHG);
            if level & 1 == 0 {
                changed.flushed()
            } else {
                changed
            }
        }
    }

    /// Level of the RTS output: low while the receiver is below its flow
    /// threshold and flow control is on.
    pub open spec fn rts_level(self) -> u32 {
        if self.reg(UART_CONF0) & CONF0_RX_FLOW_EN == 0 || self.rx.len() >= at_least_one(
            (self.reg(UART_MEM_CONF) >> 7) & COUNT_MASK,
        ) {
            1
        } else {
            0
        }
    }

    /// Status word with the live transmit count and modem lines.
    pub open spec fn status(self) -> u32 {
        let held = if self.tx_hold.len() < COUNT_MASK {
            self.tx_hold.len() as u32
        } else {
            COUNT_MASK
        };
        let v = (self.reg(UART_STATUS) & !STATUS_TX_CNT) | (held << 16);
        let v1 = if self.cts == 0 {
            v & !STATUS_CTSN
        } else {
            v | STATUS_CTSN
        };
        (if self.rts_level() == 0 {
            v1 & !STATUS_RTSN
        } else {
            v1 | STATUS_RTSN
        }) | STATUS_TXD
    }

    /// Cycles per bit; 115200 baud when the divisor is not programmed.
    pub open spec fn bit_ticks(self) -> u64 {
        let div = self.reg(UART_CLKDIV) & CLKDIV_DIV_MASK;
        if div == 0 {
            DEFAULT_BIT_TICKS
        } else {
            div as u64
        }
    }

    /// Idle ticks after which `RXFIFO_TOUT` latches.
    pub open spec fn timeout_ticks(self) -> int {
        at_least_one((self.reg(UART_MEM_CONF) >> 17) & COUNT_MASK) * self.bit_ticks()
    }

    /// The UART after `cycles` ticks.
    pub open spec fn ticked(self, cycles: u64) -> Self {
        let s = if self.tx_hold.len() > 0 && self.can_tx() {
            self.flushed()
        } else {
            self
        };
        if s.rx.len() == 0 || s.reg(UART_CONF1) & CONF1_RX_TOUT_EN == 0 {
            s
        } else {
            let idle = s.tout_idle.wrapping_add(cycles);
            if idle >= s.timeout_ticks() {
                (UartState { tout_idle: 0, ..s }).latching(INT_RXFIFO_TOUT)
            } else {
                UartState { tout_idle: idle, ..s }
            }
        }
    }

    /// Raw interrupts with the live transmitter-empty level.
    pub open spec fn int_raw(self) -> u32 {
        if (self.reg(UART_CONF1) >> 10) & COUNT_MASK != 0 && self.tx_hold.len() == 0 {
            self.reg(UART_INT_RAW) | INT_TXFIFO_EMPTY
        } else {
            self.reg(UART_INT_RAW)
        }
    }

    pub open spec fn int_st(self) -> u32 {
        self.int_raw() & self.reg(UART_INT_ENA)
    }

    pub open spec fn read(self, off: u32) -> u32 {
        if off == UART_FIFO {
            if self.rx.len() > 0 {
                self.rx[0] as u32
            } else {
                0
            }
        } else if off == UART_STATUS {
            self.status()
        } else if off == UART_INT_ST {
            self.int_st()
        } else if off == UART_INT_RAW {
            self.int_raw()
        } else if off < 4 * REG_COUNT {
            self.reg(off)
        } else {
            0
        }
    }

    /// The UART after a read: a FIFO read pops one byte, and the full line drops
    /// once the FIFO is empty.
    pub open spec fn after_read(self, off: u32) -> Self {
        if off == UART_FIFO && self.rx.len() > 0 {
            let popped = (UartState { rx: self.rx.skip(1), ..self }).with_rx_count();
            if popped.rx.len() == 0 {
                popped.with_reg(
                    UART_INT_RAW,
                    popped.reg(UART_INT_RAW) & !INT_RXFIFO_FULL,
                )
            } else {
                popped
            }
        } else {
            self
        }
    }

    pub open spec fn written(self, off: u32, value: u32) -> Self {
        if off == UART_FIFO {
            if self.reg(UART_CONF0) & CONF0_TXD_BRK != 0 {
                self
            } else if !self.can_tx() {
                if self.tx_hold.len() < FIFO_DEPTH {
                    UartState { tx_hold: self.tx_hold.push(value as u8), ..self }
                } else {
                    self
                }
            } else {
                self.shifted(value as u8).latching(INT_TX_IDLE)
            }
        } else if off == UART_INT_CLR {
            self.with_reg(UART_INT_RAW, self.reg(UART_INT_RAW) & !value)
        } else if off == UART_CONF1 {
            let stored = self.with_reg(UART_CONF1, value);
            if self.rx.len() >= stored.full_threshold() {
                stored.latching(INT_RXFIFO_FULL)
            } else {
                stored
            }
        } else if off == UART_AUTOBAUD {
            let s = if value & 1 == 0 {
                self.with_reg(UART_RXD_CNT, 0)
            } else {
                self
            };
            s.with_reg(UART_AUTOBAUD, value)
        } else if off % 4 == 0 && off < 4 * REG_COUNT {
            self.with_reg(off, value)
        } else {
            self
        }
    }

    /// The UART after up to `n` bytes are taken from the receive FIFO.
    pub open spec fn taken(self, n: nat) -> Self {
        (UartState {
            rx: if n < self.rx.len() {
                self.rx.skip(n as int)
            } else {
                Seq::empty()
            },
            ..self
        }).with_rx_count()
    }
}

/// One UART.
pub struct Uart {
    regs: [u32; REG_COUNT],
    tx_out: Vec<u8>,
    rx: VecDeque<u8>,
    rx_edge: bool,
    tx_hold: VecDeque<u8>,
    cts: u32,
    tout_idle: u64,
}

impl View for Uart {
    type V = UartState;

    closed spec fn view(&self) -> UartState {
        UartState {
            regs: self.regs@,
            tx_out: self.tx_out@,
            rx: self.rx@,
            rx_edge: self.rx_edge,
            tx_hold: self.tx_hold@,
            cts: self.cts,
            tout_idle: self.tout_idle,
        }
    }
}

impl Default for Uart {
    fn default() -> (u: Self)
        ensures
            u@ == UartState::reset(),
    {
        Self::new()
    }
}

/// The tables of every value have their sizes.
pub proof fn lemma_sizes(u: Uart)
    ensures
        u@.wf(),
{
}

impl Uart {
    pub fn new() -> (u: Self)
        ensures
            u@ == UartState::reset(),
            u@.wf(),
    {
        let mut regs: [u32; REG_COUNT] = [0u32; REG_COUNT];
        regs[(UART_STATUS / 4) as usize] = STATUS_MODEM_IDLE;
        regs[(UART_INT_RAW / 4) as usize] = INT_TX_IDLE;
        regs[(UART_MEM_CONF / 4) as usize] = 0x14_0000;
        regs[(UART_CONF1 / 4) as usize] = 0x1_8060;
        let u = Uart {
            regs,
            tx_out: Vec::new(),
            rx: VecDeque::new(),
            rx_edge: false,
            tx_hold: VecDeque::new(),
            cts: 1,
            tout_idle: 0,
        };
        assert(u@ =~= UartState::reset());
        u
    }

    /// The transmitter may shift: flow control off, or CTS low.
    fn can_tx(&self) -> (r: bool)
        ensures
            r == self@.can_tx(),
    {
        self.regs[(UART_CONF0 / 4) as usize] & CONF0_TX_FLOW_EN == 0 || self.cts == 0
    }

    fn latch(&mut self, bits: u32)
        ensures
            final(self)@ == old(self)@.latching(bits),
    {
        let raw: u32 = self.regs[(UART_INT_RAW / 4) as usize];
        self.regs[(UART_INT_RAW / 4) as usize] = raw | bits;
    }

    /// Drive the CTS input.
    pub fn set_cts(&mut self, level: u32)
        ensures
            final(self)@ == old(self)@.with_cts(level),
    {
        let level: u32 = level & 1;
        if level != self.cts {
            self.cts = level;
            self.latch(INT_CTS_CHG);
            if level == 0 {
                self.flush_hold();
            }
        }
    }

    /// Shift one byte out, with its echo and loopback.
    fn shift_out(&mut self, byte: u8)
        ensures
            final(self)@ == old(self)@.shifted(byte),
    {
        let conf0: u32 = self.regs[(UART_CONF0 / 4) as usize];
        let echo: bool = self.regs[(UART_RS485_CONF / 4) as usize] & RS485_ECHO == RS485_ECHO && conf0
            & CONF0_TXD_BRK == 0;
        let loopback: bool = conf0 & CONF0_LOOPBACK != 0;
        self.tx_out.push(byte);
        if echo {
            self.inject_rx(byte);
        }
        if loopback {
            self.inject_rx(byte);
        }
    }

    /// Shift the held bytes out.
    fn flush_hold(&mut self)
        ensures
            final(self)@ == old(self)@.flushed(),
    {
        if self.tx_hold.len() == 0 {
            return;
        }
        let mut held: VecDeque<u8> = VecDeque::new();
        core::mem::swap(&mut held, &mut self.tx_hold);
        let ghost all = held@;
        let ghost s0 = self@;
        assert(s0 =~= (UartState { tx_hold: Seq::empty(), ..old(self)@ }));
        let mut i: usize = 0;
        assert(all.take(0) =~= Seq::<u8>::empty());
        while i < held.len()
            invariant
                i <= all.len(),
                held@ == all,
                self@ == s0.shifted_all(all.take(i as int)),
            decreases all.len() - i,
        {
            assert(all.take(i + 1).drop_last() =~= all.take(i as int));
            self.shift_out(held[i]);
            i = i + 1;
        }
        assert(all.take(i as int) =~= all);
        self.latch(INT_TX_IDLE);
    }

    /// Level of the RTS output (0 means ready).
    pub fn rts_level(&self) -> (level: u32)
        ensures
            level == self@.rts_level(),
    {
        if self.regs[(UART_CONF0 / 4) as usize] & CONF0_RX_FLOW_EN == 0 {
            return 1;
        }
        let t: u32 = (self.regs[(UART_MEM_CONF / 4) as usize] >> 7) & COUNT_MASK;
        let t: u32 = if t == 0 { 1 } else { t };
        if self.rx.len() >= t as usize {
            1
        } else {
            0
        }
    }

    /// Status word with the live transmit count and modem lines.
    fn status_live(&self) -> (v: u32)
        ensures
            v == self@.status(),
    {
        let held: u32 = if self.tx_hold.len() < COUNT_MASK as usize {
            self.tx_hold.len() as u32
        } else {
            COUNT_MASK
        };
        let mut v: u32 = (self.regs[(UART_STATUS / 4) as usize] & !STATUS_TX_CNT) | (held << 16);
        if self.cts == 0 {
            v = v & !STATUS_CTSN;
        } else {
            v = v | STATUS_CTSN;
        }
        if self.rts_level() == 0 {
            v = v & !STATUS_RTSN;
        } else {
            v = v | STATUS_RTSN;
        }
        v | STATUS_TXD
    }

    /// Take the bytes emitted on the line.
    pub fn take_tx(&mut self) -> (bytes: Vec<u8>)
        ensures
            bytes@ == old(self)@.tx_out,
            final(self)@ == (UartState { tx_out: Seq::empty(), ..old(self)@ }),
    {
        let mut out: Vec<u8> = Vec::new();
        core::mem::swap(&mut out, &mut self.tx_out);
        assert(self@ =~= (UartState { tx_out: Seq::empty(), ..old(self)@ }));
        out
    }

    /// Number of emitted bytes that wait to be taken.
    pub fn tx_len(&self) -> (n: usize)
        ensures
            n == self@.tx_out.len(),
    {
        self.tx_out.len()
    }

    /// Append bytes to the emitted ones.
    pub fn push_tx(&mut self, bytes: &[u8])
        ensures
            final(self)@ == (UartState { tx_out: old(self)@.tx_out + bytes@, ..old(self)@ }),
    {
        self.tx_out.extend_from_slice(bytes);
        assert(self@ =~= (UartState { tx_out: old(self)@.tx_out + bytes@, ..old(self)@ }));
    }

    /// Mirror the FIFO length in the status register.
    fn update_rx_count(&mut self)
        ensures
            final(self)@ == old(self)@.with_rx_count(),
    {
        let v: u32 = self.regs[(UART_STATUS / 4) as usize];
        self.regs[(UART_STATUS / 4) as usize] = (v & !COUNT_MASK) | ((self.rx.len() as u32)
            & COUNT_MASK);
    }

    /// Receive one byte.
    pub fn inject_rx(&mut self, byte: u8)
        ensures
            final(self)@ == old(self)@.received(byte),
    {
        self.rx_edge = true;
        if self.rx.len() >= FIFO_DEPTH {
            return;
        }
        self.rx.push_back(byte);
        self.tout_idle = 0;
        self.update_rx_count();
        let n: u32 = self.regs[(UART_RXD_CNT / 4) as usize];
        self.regs[(UART_RXD_CNT / 4) as usize] = n.wrapping_add(1);
        let t: u32 = self.regs[(UART_CONF1 / 4) as usize] & COUNT_MASK;
        let t: u32 = if t == 0 { 1 } else { t };
        if self.rx.len() >= t as usize {
            self.latch(INT_RXFIFO_FULL);
        }
    }

    /// True while unread bytes wait.
    pub fn rx_pending(&self) -> (r: bool)
        ensures
            r == (self@.rx.len() > 0),
    {
        self.rx.len() > 0
    }

    /// Take the sticky activity flag.
    pub fn take_rx_edge(&mut self) -> (r: bool)
        ensures
            r == old(self)@.rx_edge,
            final(self)@ == (UartState { rx_edge: false, ..old(self)@ }),
    {
        let r: bool = self.rx_edge;
        self.rx_edge = false;
        r
    }

    /// Take up to `n` bytes from the receive FIFO.
    pub fn take_rx(&mut self, n: usize) -> (bytes: Vec<u8>)
        ensures
            bytes@ == if n < old(self)@.rx.len() {
                old(self)@.rx.take(n as int)
            } else {
                old(self)@.rx
            },
            final(self)@ == old(self)@.taken(n as nat),
    {
        let ghost all = self.rx@;
        let mut v: Vec<u8> = Vec::new();
        assert(all.skip(0) =~= all);
        while v.len() < n && self.rx.len() > 0
            invariant
                v@.len() <= n,
                v@.len() <= all.len(),
                v@ == all.take(v@.len() as int),
                self.rx@ == all.skip(v@.len() as int),
                self@ == (UartState { rx: self.rx@, ..old(self)@ }),
            decreases n - v@.len(),
        {
            if let Some(b) = self.rx.pop_front() {
                v.push(b);
            }
            assert(v@ =~= all.take(v@.len() as int));
            assert(self.rx@ =~= all.skip(v@.len() as int));
        }
        assert(v@ =~= if n < all.len() {
            all.take(n as int)
        } else {
            all
        });
        assert(self.rx@ =~= if n < all.len() {
            all.skip(n as int)
        } else {
            Seq::empty()
        });
        self.update_rx_count();
        v
    }

    /// Cycles per bit.
    fn bit_ticks(&self) -> (n: u64)
        ensures
            n == self@.bit_ticks(),
            1 <= n <= 4095,
    {
        let div: u32 = self.regs[(UART_CLKDIV / 4) as usize] & CLKDIV_DIV_MASK;
        if div == 0 {
            DEFAULT_BIT_TICKS
        } else {
            div as u64
        }
    }

    /// Advance `cycles` ticks.
    pub fn tick(&mut self, cycles: u64)
        ensures
            final(self)@ == old(self)@.ticked(cycles),
    {
        if self.tx_hold.len() > 0 && self.can_tx() {
            self.flush_hold();
        }
        if self.rx.len() == 0 {
            return;
        }
        if self.regs[(UART_CONF1 / 4) as usize] & CONF1_RX_TOUT_EN == 0 {
            return;
        }
        self.tout_idle = self.tout_idle.wrapping_add(cycles);
        let t: u32 = (self.regs[(UART_MEM_CONF / 4) as usize] >> 17) & COUNT_MASK;
        let t: u64 = if t == 0 { 1 } else { t as u64 };
        let bit: u64 = self.bit_ticks();
        assert(0 <= t * bit <= 1023 * 4095) by (nonlinear_arith)
            requires
                0 <= t <= 1023,
                0 <= bit <= 4095,
        ;
        if self.tout_idle >= t * bit {
            self.tout_idle = 0;
            self.latch(INT_RXFIFO_TOUT);
        }
    }

    /// Raw interrupts; the transmitter-empty bit reads its live level.
    pub fn int_raw_live(&self) -> (v: u32)
        ensures
            v == self@.int_raw(),
    {
        let v: u32 = self.regs[(UART_INT_RAW / 4) as usize];
        let t: u32 = (self.regs[(UART_CONF1 / 4) as usize] >> 10) & COUNT_MASK;
        if t != 0 && self.tx_hold.len() == 0 {
            v | INT_TXFIFO_EMPTY
        } else {
            v
        }
    }

    /// Interrupt status: raw bits that are enabled.
    pub fn int_st(&self) -> (v: u32)
        ensures
            v == self@.int_st(),
    {
        self.int_raw_live() & self.regs[(UART_INT_ENA / 4) as usize]
    }

    /// Read a register; a FIFO read pops one byte. Offsets outside the block
    /// read as 0.
    pub fn read32(&mut self, offset: u32) -> (v: u32)
        ensures
            v == old(self)@.read(offset),
            final(self)@ == old(self)@.after_read(offset),
    {
        match offset {
            UART_FIFO => {
                match self.rx.pop_front() {
                    Some(b) => {
                        assert(self.rx@ =~= old(self)@.rx.skip(1));
                        assert(self@ =~= (UartState {
                            rx: old(self)@.rx.skip(1),
                            ..old(self)@
                        }));
                        self.update_rx_count();
                        if self.rx.len() == 0 {
                            let raw: u32 = self.regs[(UART_INT_RAW / 4) as usize];
                            self.regs[(UART_INT_RAW / 4) as usize] = raw & !INT_RXFIFO_FULL;
                        }
                        b as u32
                    },
                    None => 0,
                }
            },
            UART_STATUS => self.status_live(),
            UART_INT_ST => self.int_st(),
            UART_INT_RAW => self.int_raw_live(),
            _ => if offset < 4 * REG_COUNT as u32 {
                self.regs[(offset / 4) as usize]
            } else {
                0
            },
        }
    }

    /// Write a register. Offsets outside the block are ignored.
    pub fn write32(&mut self, offset: u32, value: u32)
        ensures
            final(self)@ == old(self)@.written(offset, value),
    {
        match offset {
            UART_FIFO => {
                if self.regs[(UART_CONF0 / 4) as usize] & CONF0_TXD_BRK == 0 {
                    if !self.can_tx() {
                        if self.tx_hold.len() < FIFO_DEPTH {
                            self.tx_hold.push_back(value as u8);
                        }
                    } else {
                        self.shift_out(value as u8);
                        self.latch(INT_TX_IDLE);
                    }
                }
            },
            UART_INT_CLR => {
                let raw: u32 = self.regs[(UART_INT_RAW / 4) as usize];
                self.regs[(UART_INT_RAW / 4) as usize] = raw & !value;
            },
            UART_CONF1 => {
                self.regs[(UART_CONF1 / 4) as usize] = value;
                let t: u32 = value & COUNT_MASK;
                let t: u32 = if t == 0 { 1 } else { t };
                if self.rx.len() >= t as usize {
                    self.latch(INT_RXFIFO_FULL);
                }
            },
            UART_AUTOBAUD => {
                if value & 1 == 0 {
                    self.regs[(UART_RXD_CNT / 4) as usize] = 0;
                }
                self.regs[(UART_AUTOBAUD / 4) as usize] = value;
            },
            _ => if offset % 4 == 0 && offset < 4 * REG_COUNT as u32 {
                self.regs[(offset / 4) as usize] = value;
            },
        }
    }
}

/// The receive FIFO never exceeds the hardware depth, whatever arrives.
pub proof fn law_receive_fifo_bounded(s: UartState, byte: u8)
    requires
        s.rx.len() <= FIFO_DEPTH,
    ensures
        s.received(byte).rx.len() <= FIFO_DEPTH,
        s.rx.len() == FIFO_DEPTH ==> s.received(byte).rx == s.rx,
        s.rx.len() < FIFO_DEPTH ==> s.received(byte).rx == s.rx.push(byte),
{
}

/// A byte count read from the status word is the FIFO length, after every
/// arrival and every pop.
pub proof fn law_status_count_mirrors_fifo(s: UartState, byte: u8)
    requires
        s.wf(),
        s.rx.len() < FIFO_DEPTH,
    ensures
        s.received(byte).reg(UART_STATUS) & COUNT_MASK == s.rx.len() + 1,
        s.rx.len() > 0 ==> s.after_read(UART_FIFO).reg(UART_STATUS) & COUNT_MASK == s.rx.len() - 1,
{
    lemma_count_field(s.reg(UART_STATUS), (s.rx.len() + 1) as u32);
    if s.rx.len() > 0 {
        lemma_count_field(s.reg(UART_STATUS), (s.rx.len() - 1) as u32);
    }
}

/// The count field reads back a count that fits.
proof fn lemma_count_field(v: u32, n: u32)
    requires
        n <= COUNT_MASK,
    ensures
        ((v & !COUNT_MASK) | (n & COUNT_MASK)) & COUNT_MASK == n,
{
    assert(((v & !0x3FFu32) | (n & 0x3FFu32)) & 0x3FFu32 == n) by (bit_vector)
        requires
            n <= 0x3FF,
    ;
}

/// Bytes are read in the order in which they arrived.
pub proof fn law_receive_order(s: UartState, a: u8, b: u8)
    requires
        s.wf(),
        s.rx.len() == 0,
    ensures
        s.received(a).received(b).read(UART_FIFO) == a,
        s.received(a).received(b).after_read(UART_FIFO).read(UART_FIFO) == b,
{
    assert(s.received(a).received(b).rx =~= seq![a, b]);
    assert(s.received(a).received(b).after_read(UART_FIFO).rx =~= seq![b]);
}

/// Interrupt clear: exactly the written latched bits clear; status is raw and
/// enabled.
pub proof fn law_interrupt_clear(s: UartState, v: u32)
    requires
        s.wf(),
    ensures
        s.written(UART_INT_CLR, v).reg(UART_INT_RAW) == s.reg(UART_INT_RAW) & !v,
        s.read(UART_INT_ST) == s.read(UART_INT_RAW) & s.reg(UART_INT_ENA),
{
}

/// With flow control off every written byte reaches the line; with CTS high it
/// is held, and reaches the line in order when CTS drops.
pub proof fn law_flow_control(s: UartState, byte: u32)
    requires
        s.wf(),
        s.reg(UART_CONF0) & CONF0_TXD_BRK == 0,
        !s.echoes(),
        !s.loops_back(),
    ensures
        s.can_tx() ==> s.written(UART_FIFO, byte).tx_out == s.tx_out.push(byte as u8),
        !s.can_tx() ==> s.written(UART_FIFO, byte).tx_out == s.tx_out,
        !s.can_tx() && s.cts == 1 ==> s.with_cts(0).tx_out == s.tx_out + s.tx_hold,
        !s.can_tx() && s.cts == 1 ==> s.with_cts(0).tx_hold.len() == 0,
{
    crate::bits::lemma_constants();
    let c = UartState {
        tx_hold: Seq::empty(),
        ..(UartState { cts: 0, ..s }).latching(INT_CTS_CHG)
    };
    lemma_shift_all(c, s.tx_hold);
    assert(s.tx_out + Seq::<u8>::empty() =~= s.tx_out);
}

/// Without echo or loopback, shifting only appends to the line.
proof fn lemma_shift_all(s: UartState, bytes: Seq<u8>)
    requires
        !s.echoes(),
        !s.loops_back(),
    ensures
        s.shifted_all(bytes) == (UartState { tx_out: s.tx_out + bytes, ..s }),
    decreases bytes.len(),
{
    if bytes.len() == 0 {
        assert(s.tx_out + bytes =~= s.tx_out);
    } else {
        lemma_shift_all(s, bytes.drop_last());
        assert((s.tx_out + bytes.drop_last()).push(bytes.last()) =~= s.tx_out + bytes);
    }
}

/// Loopback: a transmitted byte is received.
pub proof fn law_loopback(s: UartState, byte: u32)
    requires
        s.wf(),
        s.reg(UART_CONF0) & CONF0_TXD_BRK == 0,
        s.loops_back(),
        !s.echoes(),
        s.can_tx(),
        s.rx.len() < FIFO_DEPTH,
    ensures
        s.written(UART_FIFO, byte).rx == s.rx.push(byte as u8),
        s.written(UART_FIFO, byte).tx_out == s.tx_out.push(byte as u8),
{
}

/// The receive timeout latches exactly when the idle time reaches the
/// threshold, and only while data is pending and the timeout is enabled.
pub proof fn law_receive_timeout(s: UartState, cycles: u64)
    requires
        s.wf(),
        s.tx_hold.len() == 0,
        s.tout_idle + cycles <= u64::MAX,
        s.reg(UART_INT_RAW) & INT_RXFIFO_TOUT == 0,
    ensures
        s.ticked(cycles).reg(UART_INT_RAW) & INT_RXFIFO_TOUT != 0 <==> s.rx.len() > 0 && s.reg(
            UART_CONF1,
        ) & CONF1_RX_TOUT_EN != 0 && s.tout_idle + cycles >= s.timeout_ticks(),
{
    let raw = s.reg(UART_INT_RAW);
    crate::bits::lemma_masks(raw, 1u32 << 8, 0);
    crate::bits::lemma_constants();
}

/// A clear-to-send input that keeps its level changes nothing.
pub proof fn law_cts_settles(s: UartState, level: u32)
    ensures
        s.with_cts(level).with_cts(level) == s.with_cts(level),
{
    let changed = (UartState { cts: level & 1, ..s }).latching(INT_CTS_CHG);
    lemma_shifting_keeps_cts(UartState { tx_hold: Seq::empty(), ..changed }, changed.tx_hold);
}

proof fn lemma_shifting_keeps_cts(s: UartState, bytes: Seq<u8>)
    ensures
        s.shifted_all(bytes).cts == s.cts,
    decreases bytes.len(),
{
    if bytes.len() > 0 {
        lemma_shifting_keeps_cts(s, bytes.drop_last());
    }
}

} // verus!
