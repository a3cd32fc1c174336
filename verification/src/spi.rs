//! General-purpose SPI controllers (GPSPI2 and GPSPI3).
//!
//! Writing `CMD.usr` starts a master transaction whose phases `USER` enables:
//! command, address, dummy and data. The SPI clock period is
//! `(clkdiv_pre + 1) * (clkcnt_n + 1)` APB cycles, or 1 if
//! `CLOCK.clk_equ_sysclk` is set, and the clock runs while `CLK_GATE.clk_en` is
//! set. `CMD.usr` clears itself when the transaction ends, which also latches
//! `INT_RAW.trans_done`. The data buffer is an array of little-endian words:
//! stream byte `i` is byte `i % 4` of word `i / 4`.
//!
//! Response bytes of a transfer come from an attached SD card, from a one-shot
//! injection, from the wide-mode pattern device, or else read as zero. In slave
//! mode the exchanges are driven from outside, at the level of the buffer.

use vstd::prelude::*;
use crate::bits::reverse_byte;
use crate::bytes::{lane, word_from_le};
use crate::sdspi::{CardState, SdspiCard};

verus! {

broadcast use crate::bits::lemma_and_le;

pub const SPI_CMD: u32 = 0x00;

pub const SPI_ADDR: u32 = 0x04;

pub const SPI_CTRL: u32 = 0x08;

pub const SPI_CLOCK: u32 = 0x0C;

pub const SPI_USER: u32 = 0x10;

pub const SPI_USER1: u32 = 0x14;

pub const SPI_USER2: u32 = 0x18;

pub const SPI_MS_DLEN: u32 = 0x1C;

pub const SPI_MISC: u32 = 0x20;

/// DMA configuration: receive and transmit enables.
pub const SPI_DMA_CONF: u32 = 0x30;

pub const SPI_INT_ENA: u32 = 0x34;

pub const SPI_INT_CLR: u32 = 0x38;

pub const SPI_INT_RAW: u32 = 0x3C;

pub const SPI_INT_ST: u32 = 0x40;

/// Software-set register: written bits are ORed into `INT_RAW`.
pub const SPI_INT_SET: u32 = 0x44;

pub const SPI_DATA_BUF: u32 = 0x98;

pub const SPI_SLAVE: u32 = 0xE0;

/// Slave transfer length in bits `[17:0]`.
pub const SPI_SLAVE1: u32 = 0xE4;

pub const SPI_CLK_GATE: u32 = 0xE8;

pub const CMD_UPDATE: u32 = 1 << 23;

pub const CMD_USR: u32 = 1 << 24;

pub const CLOCK_EQU_SYSCLK: u32 = 1 << 31;

pub const USER_DOUTDIN: u32 = 1;

pub const USER_USR_COMMAND: u32 = 1 << 31;

pub const USER_USR_ADDR: u32 = 1 << 30;

pub const USER_USR_DUMMY: u32 = 1 << 29;

pub const USER_USR_MISO: u32 = 1 << 28;

pub const USER_USR_MOSI: u32 = 1 << 27;

pub const MS_DLEN_DATA_BITLEN_MASK: u32 = 0x3_FFFF;

pub const MISC_CK_IDLE_EDGE: u32 = 1 << 29;

pub const MISC_CS0_DIS: u32 = 1;

pub const MISC_CS1_DIS: u32 = 1 << 1;

pub const SLAVE_MODE: u32 = 1 << 26;

pub const SLAVE1_DATA_BITLEN_MASK: u32 = 0x3_FFFF;

pub const CTRL_D_POL: u32 = 1 << 20;

pub const CTRL_WR_BIT_ORDER: u32 = 1 << 29;

pub const CTRL_RD_BIT_ORDER: u32 = 1 << 27;

/// `CTRL` bits that select quad lines for any phase.
pub const CTRL_QUAD: u32 = 0x8240;

/// `CTRL` bits that select dual lines for any phase.
pub const CTRL_DUAL: u32 = 0x4120;

pub const CLK_GATE_CLK_EN: u32 = 1;

pub const INT_TRANS_DONE: u32 = 1 << 12;

pub const INT_RD_DMA_DONE: u32 = 1 << 8;

pub const INT_WR_DMA_DONE: u32 = 1 << 9;

pub const DMA_RX_ENA: u32 = 1 << 25;

pub const DMA_TX_ENA: u32 = 1 << 26;

/// Bytes that can be staged for one transfer. The cycles of a longer one would not
/// fit in 64 bits.
pub const STAGED_MAX: u64 = 0x1_FFFF_FFFF_FFFF;

/// Words in the register block.
pub const REG_COUNT: usize = 61;

/// Words in the data buffer.
pub const DATA_WORDS: usize = 16;

/// Index of the first data buffer word.
pub const DATA_IDX: usize = 38;

/// Byte `i` of a string, 0 past its end.
pub open spec fn byte_or_zero(bytes: Seq<u8>, i: int) -> u8 {
    if 0 <= i < bytes.len() {
        bytes[i]
    } else {
        0
    }
}

/// Word `w` of a byte string laid out in little-endian words, zero-padded.
pub open spec fn packed_word(bytes: Seq<u8>, w: int) -> u32 {
    crate::bytes::le_word(
        byte_or_zero(bytes, 4 * w),
        byte_or_zero(bytes, 4 * w + 1),
        byte_or_zero(bytes, 4 * w + 2),
        byte_or_zero(bytes, 4 * w + 3),
    )
}

/// The first `n` words of a byte string laid out in little-endian words.
pub open spec fn packed(bytes: Seq<u8>, n: nat) -> Seq<u32> {
    Seq::new(n, |w: int| packed_word(bytes, w))
}

/// Byte `i` of a string laid out in little-endian words, 0 past its end.
pub open spec fn unpacked_byte(words: Seq<u32>, i: int) -> u8 {
    if 0 <= i / 4 < words.len() {
        crate::bytes::byte_lane(words[i / 4], (i % 4) as u32)
    } else {
        0
    }
}

/// A byte in the configured bit order.
pub open spec fn ordered(b: u8, lsb_first: bool) -> u8 {
    if lsb_first {
        crate::bits::reversed(b)
    } else {
        b
    }
}

/// A running transaction.
#[verifier::ext_equal]
pub struct TxnState {
    /// APB cycles per SPI clock.
    pub bit_cycles: u64,
    /// APB cycles of each SPI clock in which the line stays at its idle level.
    pub low_ticks: u64,
    /// Bit slots: command, address, dummy and data.
    pub total_bits: u64,
    pub cmd_bits: u64,
    pub addr_bits: u64,
    /// Width of the data phase.
    pub data_bits: u64,
    pub have_mosi: bool,
    pub have_miso: bool,
    /// The output and input windows of the data phase overlap.
    pub doutdin: bool,
    /// The data comes from and goes to the DMA staging.
    pub dma: bool,
    /// Idle clock level.
    pub ck_pol: u32,
    /// Idle data line level.
    pub d_pol: u32,
    /// Output bytes go out least significant bit first.
    pub wr_lsb: bool,
    /// Input bytes come in least significant bit first.
    pub rd_lsb: bool,
    pub cmd_value: u32,
    pub addr_value: u32,
    /// Output words.
    pub buf: Seq<u32>,
    /// APB cycles left.
    pub remain: u64,
}

/// Bytes that `bits` bits occupy.
pub open spec fn bytes_for(bits: u64) -> nat {
    ((bits + 7) / 8) as nat
}

impl TxnState {
    pub open spec fn wf(self) -> bool {
        &&& 1 <= self.bit_cycles <= 1024
        &&& self.total_bits <= 0x20_0000_0000_0200
        &&& self.cmd_bits + self.addr_bits <= self.total_bits
        &&& self.cmd_bits <= 16
        &&& self.addr_bits <= 32
        &&& self.data_bits < 0x10_0000_0000_0000
        &&& 1 <= self.remain <= self.total_bits * self.bit_cycles
    }

    /// The output byte stream of the data phase.
    pub open spec fn mosi_bytes(self) -> Seq<u8> {
        Seq::new(
            if self.have_mosi { bytes_for(self.data_bits) } else { 0 },
            |i: int| ordered(unpacked_byte(self.buf, i), self.wr_lsb),
        )
    }

    /// APB cycles since the start.
    pub open spec fn elapsed(self) -> int {
        self.total_bits * self.bit_cycles - self.remain
    }

    /// Level of bit `bit` of the output stream. Bytes go out most significant
    /// bit first, or least significant first with `wr_lsb`.
    pub open spec fn data_bit(self, bit: int) -> u32 {
        let byte = bit / 8;
        if bit >= self.data_bits || byte / 4 >= self.buf.len() {
            0
        } else {
            let in_byte = if self.wr_lsb { bit % 8 } else { 7 - bit % 8 };
            (self.buf[byte / 4] >> (((byte % 4) * 8 + in_byte) as u64)) & 1
        }
    }

    /// Level of the output data line `elapsed` cycles into the transaction.
    pub open spec fn mosi_level(self, elapsed: int) -> u32 {
        let slot = elapsed / (self.bit_cycles as int);
        if slot >= self.total_bits {
            self.d_pol
        } else if slot < self.cmd_bits {
            (self.cmd_value >> ((self.cmd_bits - 1 - slot) as u32)) & 1
        } else if slot - self.cmd_bits < self.addr_bits {
            (self.addr_value >> ((self.addr_bits - 1 - (slot - self.cmd_bits)) as u32)) & 1
        } else if !self.have_mosi {
            0
        } else {
            self.data_bit(slot - self.cmd_bits - self.addr_bits)
        }
    }

    /// Level of the clock line `elapsed` cycles into the transaction: idle level
    /// for the first `low_ticks` cycles of each SPI clock, the opposite after.
    pub open spec fn clock_level(self, elapsed: int) -> u32 {
        if elapsed >= self.total_bits * self.bit_cycles {
            self.ck_pol
        } else if elapsed % (self.bit_cycles as int) >= self.low_ticks {
            self.ck_pol ^ 1
        } else {
            self.ck_pol ^ 0
        }
    }

    /// Level of a chip-select line `elapsed` cycles into the transaction.
    pub open spec fn cs_level(self, elapsed: int, disabled: bool) -> u32 {
        if disabled {
            1
        } else if elapsed < self.total_bits * self.bit_cycles {
            0
        } else {
            1
        }
    }
}

/// A controller.
#[verifier::ext_equal]
pub struct SpiState {
    pub regs: Seq<u32>,
    pub idx: u32,
    pub txn: Option<TxnState>,
    /// Output bytes of the last completed transfer.
    pub last_tx: Option<Seq<u8>>,
    /// One-shot input bytes for the next transfer.
    pub pending_miso: Option<Seq<u8>>,
    /// Output bytes staged by DMA.
    pub dma_tx: Seq<u8>,
    /// Input bytes captured for DMA.
    pub dma_rx: Seq<u8>,
    /// Contents of the wide-mode pattern device.
    pub quad_fake: Option<Seq<u8>>,
    pub sdspi: CardState,
    /// The card's select line is low.
    pub sdspi_cs_low: bool,
}

/// The pattern device after `bytes` are written at `addr`: the store wraps.
pub open spec fn quad_written(store: Seq<u8>, addr: u32, bytes: Seq<u8>) -> Seq<u8>
    decreases bytes.len(),
{
    if bytes.len() == 0 || store.len() == 0 {
        store
    } else {
        quad_written(store, addr, bytes.drop_last()).update(
            (addr + bytes.len() - 1) % (store.len() as int),
            bytes.last(),
        )
    }
}

/// `n` bytes of the pattern device from `addr` on: the store wraps.
pub open spec fn quad_read(store: Seq<u8>, addr: u32, n: nat) -> Seq<u8> {
    Seq::new(n, |i: int| store[(addr + i) % (store.len() as int)])
}

/// Length field for an exchange of `len` bytes.
pub open spec fn exchange_bitlen(len: nat) -> u32 {
    let bits = (len * 8) as u32;
    let capped: u32 = if bits <= 0x4_0000 {
        bits
    } else {
        0x4_0000
    };
    capped & SLAVE1_DATA_BITLEN_MASK
}

impl SpiState {
    pub open spec fn wf(self) -> bool {
        &&& self.regs.len() == REG_COUNT
        &&& self.dma_tx.len() <= STAGED_MAX
        &&& (self.txn matches Some(t) ==> t.wf())
    }

    pub open spec fn reset(idx: u32) -> Self {
        SpiState {
            regs: Seq::new(REG_COUNT as nat, |i: int| 0u32),
            idx,
            txn: None,
            last_tx: None,
            pending_miso: None,
            dma_tx: Seq::empty(),
            dma_rx: Seq::empty(),
            quad_fake: None,
            sdspi: CardState::empty(),
            sdspi_cs_low: true,
        }
    }

    pub open spec fn reg(self, off: u32) -> u32 {
        self.regs[(off / 4) as int]
    }

    pub open spec fn with_reg(self, off: u32, v: u32) -> Self {
        SpiState { regs: self.regs.update((off / 4) as int, v), ..self }
    }

    /// Received bytes of slave exchanges go to memory.
    pub open spec fn dma_rx_slave(self) -> bool {
        self.is_slave() && self.reg(SPI_DMA_CONF) & DMA_RX_ENA != 0
    }

    /// Sent bytes of slave exchanges come from memory.
    pub open spec fn dma_tx_slave(self) -> bool {
        self.is_slave() && self.reg(SPI_DMA_CONF) & DMA_TX_ENA != 0
    }

    /// A slave exchange through memory has ended.
    pub open spec fn slave_done(self, bits: u32, is_write: bool) -> Self {
        self.with_bitlen(
            (if bits <= 0x4_0000 {
                bits
            } else {
                0x4_0000
            }) & SLAVE1_DATA_BITLEN_MASK,
        ).latching(
            if is_write {
                INT_WR_DMA_DONE
            } else {
                INT_RD_DMA_DONE
            },
        )
    }

    /// The controller after a master has written to it; only a slave takes part.
    pub open spec fn after_slave_write(self, bytes: Seq<u8>) -> Self {
        if self.is_slave() {
            self.with_data_buf(bytes).with_bitlen(exchange_bitlen(bytes.len())).latching(
                INT_TRANS_DONE,
            )
        } else {
            self
        }
    }

    /// Bytes that a master reads from the data buffer.
    pub open spec fn slave_bytes(self, n: nat) -> Seq<u8> {
        if self.is_slave() {
            Seq::new(n, |i: int| unpacked_byte(self.data_buf(), i))
        } else {
            Seq::empty()
        }
    }

    /// The controller after a master has read from it; only a slave takes part.
    pub open spec fn after_slave_read(self, n: nat) -> Self {
        if self.is_slave() {
            self.with_bitlen(exchange_bitlen(n)).latching(INT_TRANS_DONE)
        } else {
            self
        }
    }

    pub open spec fn is_slave(self) -> bool {
        self.reg(SPI_SLAVE) & SLAVE_MODE != 0
    }

    /// Wire width: 0 single, 1 dual, 2 quad (quad wins).
    pub open spec fn quad_mode(self) -> u32 {
        if self.reg(SPI_CTRL) & CTRL_QUAD != 0 {
            2
        } else if self.reg(SPI_CTRL) & CTRL_DUAL != 0 {
            1
        } else {
            0
        }
    }

    pub open spec fn int_st(self) -> u32 {
        self.reg(SPI_INT_RAW) & self.reg(SPI_INT_ENA)
    }

    pub open spec fn latching(self, bits: u32) -> Self {
        self.with_reg(SPI_INT_RAW, self.reg(SPI_INT_RAW) | bits)
    }

    /// Words of the data buffer.
    pub open spec fn data_buf(self) -> Seq<u32> {
        self.regs.subrange(DATA_IDX as int, DATA_IDX + DATA_WORDS)
    }

    pub open spec fn with_data_buf(self, bytes: Seq<u8>) -> Self {
        SpiState {
            regs: Seq::new(
                self.regs.len(),
                |i: int|
                    if DATA_IDX <= i < DATA_IDX + DATA_WORDS {
                        packed_word(bytes, i - DATA_IDX)
                    } else {
                        self.regs[i]
                    },
            ),
            ..self
        }
    }

    pub open spec fn with_bitlen(self, bitlen: u32) -> Self {
        self.with_reg(
            SPI_SLAVE1,
            (self.reg(SPI_SLAVE1) & !SLAVE1_DATA_BITLEN_MASK) | bitlen,
        )
    }

    pub open spec fn cmd_bits(self) -> u64 {
        if self.reg(SPI_USER) & USER_USR_COMMAND != 0 {
            ((self.reg(SPI_USER2) >> 28) + 1) as u64
        } else {
            0
        }
    }

    pub open spec fn addr_bits(self) -> u64 {
        if self.reg(SPI_USER) & USER_USR_ADDR != 0 {
            (((self.reg(SPI_USER1) >> 27) & 0x1F) + 1) as u64
        } else {
            0
        }
    }

    pub open spec fn dummy_bits(self) -> u64 {
        if self.reg(SPI_USER) & USER_USR_DUMMY != 0 {
            ((self.reg(SPI_USER1) & 0xFF) + 1) as u64
        } else {
            0
        }
    }

    pub open spec fn have_mosi(self) -> bool {
        self.reg(SPI_USER) & USER_USR_MOSI != 0
    }

    pub open spec fn have_miso(self) -> bool {
        self.reg(SPI_USER) & USER_USR_MISO != 0
    }

    pub open spec fn doutdin(self) -> bool {
        self.reg(SPI_USER) & USER_DOUTDIN != 0
    }

    pub open spec fn data_bits(self) -> u64 {
        if self.have_mosi() || self.have_miso() {
            ((self.reg(SPI_MS_DLEN) & MS_DLEN_DATA_BITLEN_MASK) + 1) as u64
        } else {
            0
        }
    }

    /// `clkcnt_n + 1`.
    pub open spec fn clock_n(self) -> int {
        ((self.reg(SPI_CLOCK) >> 12) & 0x3F) + 1
    }

    /// `clkcnt_h + 1`.
    pub open spec fn clock_h(self) -> int {
        ((self.reg(SPI_CLOCK) >> 6) & 0x3F) + 1
    }

    /// `clkdiv_pre + 1`.
    pub open spec fn clock_pre(self) -> int {
        ((self.reg(SPI_CLOCK) >> 18) & 0xF) + 1
    }

    /// APB cycles per SPI clock.
    pub open spec fn bit_cycles(self) -> u64 {
        if self.reg(SPI_CLOCK) & CLOCK_EQU_SYSCLK != 0 {
            1
        } else {
            (self.clock_pre() * self.clock_n()) as u64
        }
    }

    /// APB cycles of each SPI clock at the idle level.
    pub open spec fn low_ticks(self) -> u64 {
        if self.clock_h() >= self.clock_n() {
            0
        } else {
            ((self.clock_n() - self.clock_h()) * self.clock_pre()) as u64
        }
    }

    /// The transaction that the registers describe, with the data phase
    /// `data_bits` wide and `window` slots long.
    pub open spec fn planned(
        self,
        data_bits: u64,
        window: u64,
        dma: bool,
        buf: Seq<u32>,
    ) -> TxnState {
        let total_bits = (self.cmd_bits() + self.addr_bits() + self.dummy_bits() + window) as u64;
        TxnState {
            bit_cycles: self.bit_cycles(),
            low_ticks: self.low_ticks(),
            total_bits,
            cmd_bits: self.cmd_bits(),
            addr_bits: self.addr_bits(),
            data_bits,
            have_mosi: self.have_mosi(),
            have_miso: self.have_miso(),
            doutdin: dma || self.doutdin(),
            dma,
            ck_pol: (self.reg(SPI_MISC) >> 29) & 1,
            d_pol: (self.reg(SPI_CTRL) >> 20) & 1,
            wr_lsb: self.reg(SPI_CTRL) & CTRL_WR_BIT_ORDER != 0,
            rd_lsb: self.reg(SPI_CTRL) & CTRL_RD_BIT_ORDER != 0,
            cmd_value: self.reg(SPI_USER2) & 0xFFFF,
            addr_value: self.reg(SPI_ADDR),
            buf,
            remain: (total_bits * self.bit_cycles()) as u64,
        }
    }

    /// The controller once transaction `t` starts: `trans_done` is cleared.
    pub open spec fn starting(self, t: TxnState) -> Self {
        SpiState {
            txn: Some(t),
            ..self.with_reg(SPI_INT_RAW, self.reg(SPI_INT_RAW) & !INT_TRANS_DONE)
        }
    }

    /// The controller after `CMD` holds its new value. A set `usr` bit starts a
    /// master transaction, unless one is running or the controller is a slave;
    /// a transaction without phases ends at once.
    pub open spec fn triggered(self) -> Self {
        if self.reg(SPI_CMD) & CMD_USR == 0 || self.txn is Some || self.is_slave() {
            self
        } else if self.cmd_bits() + self.addr_bits() + self.dummy_bits() + self.data_bits() == 0 {
            self.with_reg(SPI_CMD, self.reg(SPI_CMD) & !CMD_USR)
        } else {
            let window = if self.have_mosi() && self.have_miso() && !self.doutdin() {
                (self.data_bits() * 2) as u64
            } else {
                self.data_bits()
            };
            self.starting(self.planned(self.data_bits(), window, false, self.data_buf()))
        }
    }

    /// The controller after a DMA-backed transfer is started from the staged
    /// bytes. The data phase is as wide as the registers say, or as the staged
    /// bytes need, whichever is more.
    pub open spec fn dma_triggered(self) -> Self {
        if self.txn is Some || self.is_slave() {
            self
        } else {
            let fed_bits = (self.dma_tx.len() * 8) as u64;
            let data_bits = if self.data_bits() >= fed_bits {
                self.data_bits()
            } else {
                fed_bits
            };
            let taken = SpiState { dma_tx: Seq::empty(), ..self };
            if self.cmd_bits() + self.addr_bits() + self.dummy_bits() + data_bits == 0 {
                taken
            } else {
                taken.starting(
                    self.planned(
                        data_bits,
                        data_bits,
                        true,
                        packed(self.dma_tx, ((data_bits + 31) / 32) as nat),
                    ),
                )
            }
        }
    }

    /// The card's view of transaction `t`: what it samples without answering.
    pub open spec fn card_before_answer(self, t: TxnState) -> CardState {
        let selected = self.sdspi.with_select(self.sdspi_cs_low);
        if selected.attached && !t.dma && t.have_mosi && !(t.have_miso && t.doutdin) {
            selected.collecting_all(t.mosi_bytes())
        } else {
            selected
        }
    }

    /// The bytes clocked through the card while it answers.
    pub open spec fn card_clocked(self, t: TxnState) -> Seq<u8> {
        if self.sdspi.attached && !t.dma && t.have_miso {
            if t.doutdin && t.have_mosi {
                t.mosi_bytes()
            } else {
                Seq::new(bytes_for(t.data_bits), |i: int| 0xFFu8)
            }
        } else {
            Seq::empty()
        }
    }

    /// The input bytes of transaction `t`: from the card if it answers, else
    /// the injected bytes, else the pattern device in a wide mode, else none.
    pub open spec fn input_bytes(self, t: TxnState) -> Seq<u8> {
        let card = self.card_before_answer(t).miso_all(self.card_clocked(t));
        if card.len() > 0 {
            card
        } else if self.pending_miso is Some {
            self.pending_miso->0
        } else if self.quad_mode() != 0 && self.quad_fake is Some && self.quad_fake->0.len() > 0 {
            quad_read(self.quad_fake->0, t.addr_value, bytes_for(t.data_bits))
        } else {
            Seq::empty()
        }
    }

    /// The controller after transaction `t` ends.
    pub open spec fn completed(self, t: TxnState) -> Self {
        let input = self.input_bytes(t);
        let captured = if t.dma {
            SpiState {
                dma_rx: Seq::new(bytes_for(t.data_bits), |i: int| byte_or_zero(input, i)),
                ..self
            }
        } else if t.have_miso {
            self.with_data_buf(Seq::new(input.len(), |i: int| ordered(input[i], t.rd_lsb)))
        } else {
            self
        };
        let latched = captured.latching(INT_TRANS_DONE);
        SpiState {
            sdspi: self.card_before_answer(t).fed_all(self.card_clocked(t)),
            pending_miso: if t.dma || t.have_miso {
                None
            } else {
                self.pending_miso
            },
            quad_fake: if t.have_mosi && self.quad_mode() != 0 && self.quad_fake is Some {
                Some(quad_written(self.quad_fake->0, t.addr_value, t.mosi_bytes()))
            } else {
                self.quad_fake
            },
            last_tx: Some(t.mosi_bytes()),
            txn: None,
            ..latched.with_reg(SPI_CMD, latched.reg(SPI_CMD) & !CMD_USR)
        }
    }

    /// The controller after `cycles` APB cycles. The transaction ends as soon as
    /// its remaining cycles have passed; it stands still while the clock gate is
    /// closed.
    pub open spec fn ticked(self, cycles: u64) -> Self {
        match self.txn {
            Some(t) => if self.reg(SPI_CLK_GATE) & CLK_GATE_CLK_EN == 0 || cycles == 0 {
                self
            } else if t.remain <= cycles {
                self.completed(t)
            } else {
                SpiState {
                    txn: Some(TxnState { remain: (t.remain - cycles) as u64, ..t }),
                    ..self
                }
            },
            None => self,
        }
    }

    /// The controller after a register write. Unaligned offsets and offsets
    /// outside the block are ignored; `UPDATE` clears itself.
    pub open spec fn written(self, off: u32, value: u32) -> Self {
        if off % 4 != 0 || off >= 4 * REG_COUNT {
            self
        } else if off == SPI_INT_CLR {
            self.with_reg(SPI_INT_RAW, self.reg(SPI_INT_RAW) & !value)
        } else if off == SPI_INT_SET {
            self.latching(value).with_reg(SPI_INT_SET, value)
        } else if off == SPI_CMD {
            self.with_reg(
                SPI_CMD,
                if value & CMD_UPDATE != 0 {
                    value & !CMD_UPDATE
                } else {
                    value
                },
            ).triggered()
        } else {
            self.with_reg(off, value)
        }
    }

    pub open spec fn read(self, off: u32) -> u32 {
        if off >= 4 * REG_COUNT {
            0
        } else if off == SPI_INT_ST {
            self.int_st()
        } else if off == SPI_INT_CLR {
            0
        } else {
            self.reg(off)
        }
    }

    /// First signal number of the controller's output bundle.
    pub open spec fn clk_signal(self) -> u32 {
        if self.idx == 0 {
            101
        } else {
            66
        }
    }

    pub open spec fn data_signal(self) -> u32 {
        if self.idx == 0 {
            103
        } else {
            68
        }
    }

    pub open spec fn cs0_signal(self) -> u32 {
        if self.idx == 0 {
            110
        } else {
            71
        }
    }

    pub open spec fn cs1_signal(self) -> u32 {
        if self.idx == 0 {
            111
        } else {
            72
        }
    }

    /// Level of output signal `sig`; 0 for signals of other peripherals. An idle
    /// controller drives the idle levels and keeps both selects high.
    pub open spec fn signal_level(self, sig: u32) -> u32 {
        match self.txn {
            None => if sig == self.clk_signal() {
                (self.reg(SPI_MISC) & MISC_CK_IDLE_EDGE) >> 29
            } else if sig == self.data_signal() {
                (self.reg(SPI_CTRL) & CTRL_D_POL) >> 20
            } else if sig == self.cs0_signal() || sig == self.cs1_signal() {
                1
            } else {
                0
            },
            Some(t) => if sig == self.clk_signal() {
                t.clock_level(t.elapsed())
            } else if sig == self.data_signal() {
                t.mosi_level(t.elapsed())
            } else if sig == self.cs0_signal() {
                t.cs_level(t.elapsed(), self.reg(SPI_MISC) & MISC_CS0_DIS != 0)
            } else if sig == self.cs1_signal() {
                t.cs_level(t.elapsed(), (self.reg(SPI_MISC) & MISC_CS1_DIS) >> 1 != 0)
            } else {
                0
            },
        }
    }

    /// Little-endian word of the captured input bytes at byte offset `off`,
    /// zero-padded.
    pub open spec fn dma_rx_word(self, off: u32) -> u32 {
        crate::bytes::le_word(
            byte_or_zero(self.dma_rx, off as int),
            byte_or_zero(self.dma_rx, off + 1),
            byte_or_zero(self.dma_rx, off + 2),
            byte_or_zero(self.dma_rx, off + 3),
        )
    }
}

/// A running transaction.
struct Txn {
    bit_cycles: u64,
    low_ticks: u64,
    total_bits: u64,
    cmd_bits: u64,
    addr_bits: u64,
    data_bits: u64,
    have_mosi: bool,
    have_miso: bool,
    doutdin: bool,
    dma: bool,
    ck_pol: u32,
    d_pol: u32,
    wr_lsb: bool,
    rd_lsb: bool,
    cmd_value: u32,
    addr_value: u32,
    buf: Vec<u32>,
    remain: u64,
}

impl View for Txn {
    type V = TxnState;

    closed spec fn view(&self) -> TxnState {
        TxnState {
            bit_cycles: self.bit_cycles,
            low_ticks: self.low_ticks,
            total_bits: self.total_bits,
            cmd_bits: self.cmd_bits,
            addr_bits: self.addr_bits,
            data_bits: self.data_bits,
            have_mosi: self.have_mosi,
            have_miso: self.have_miso,
            doutdin: self.doutdin,
            dma: self.dma,
            ck_pol: self.ck_pol,
            d_pol: self.d_pol,
            wr_lsb: self.wr_lsb,
            rd_lsb: self.rd_lsb,
            cmd_value: self.cmd_value,
            addr_value: self.addr_value,
            buf: self.buf@,
            remain: self.remain,
        }
    }
}

/// Bytes that `bits` bits occupy.
fn count_bytes(bits: u64) -> (n: u64)
    requires
        bits < 0x10_0000_0000_0000,
    ensures
        n == bytes_for(bits),
        n <= 0x2_0000_0000_0000,
{
    (bits + 7) / 8
}

/// A byte in the configured bit order.
fn order_byte(b: u8, lsb_first: bool) -> (r: u8)
    ensures
        r == ordered(b, lsb_first),
{
    if lsb_first {
        reverse_byte(b)
    } else {
        b
    }
}

fn get_byte_or_zero(bytes: &[u8], i: u64) -> (b: u8)
    ensures
        b == byte_or_zero(bytes@, i as int),
{
    if i < bytes.len() as u64 {
        bytes[i as usize]
    } else {
        0
    }
}

/// Word `w` of a byte string laid out in little-endian words, zero-padded.
fn pack_word(bytes: &[u8], w: u64) -> (v: u32)
    requires
        w < 0x1000_0000_0000_0000,
    ensures
        v == packed_word(bytes@, w as int),
{
    word_from_le(
        get_byte_or_zero(bytes, 4 * w),
        get_byte_or_zero(bytes, 4 * w + 1),
        get_byte_or_zero(bytes, 4 * w + 2),
        get_byte_or_zero(bytes, 4 * w + 3),
    )
}

/// Byte `i` of a string laid out in little-endian words, 0 past its end.
fn unpack_byte(words: &Vec<u32>, i: u64) -> (b: u8)
    ensures
        b == unpacked_byte(words@, i as int),
{
    let w: u64 = i / 4;
    if w < words.len() as u64 {
        lane(words[w as usize], (i % 4) as u32)
    } else {
        0
    }
}

impl Txn {
    /// The output byte stream of the data phase.
    fn collect_mosi(&self) -> (out: Vec<u8>)
        requires
            self@.wf(),
        ensures
            out@ == self@.mosi_bytes(),
    {
        let nbytes: u64 = if self.have_mosi { count_bytes(self.data_bits) } else { 0 };
        let mut out: Vec<u8> = Vec::new();
        let mut b: u64 = 0;
        while b < nbytes
            invariant
                b <= nbytes,
                nbytes == self@.mosi_bytes().len(),
                out@ == self@.mosi_bytes().take(b as int),
            decreases nbytes - b,
        {
            let v: u8 = order_byte(unpack_byte(&self.buf, b), self.wr_lsb);
            out.push(v);
            assert(out@ =~= self@.mosi_bytes().take(b + 1));
            b = b + 1;
        }
        assert(out@ =~= self@.mosi_bytes());
        out
    }

    /// Level of bit `bit` of the output stream.
    fn data_bit(&self, bit: u64) -> (level: u32)
        requires
            self@.wf(),
        ensures
            level == self@.data_bit(bit as int),
    {
        if bit >= self.data_bits {
            return 0;
        }
        let byte: u64 = bit / 8;
        let w: u64 = byte / 4;
        if w >= self.buf.len() as u64 {
            return 0;
        }
        let in_byte: u64 = if self.wr_lsb { bit % 8 } else { 7 - bit % 8 };
        let shift: u64 = (byte % 4) * 8 + in_byte;
        (self.buf[w as usize] >> shift) & 1
    }

    /// Level of the output data line.
    fn mosi_level(&self, elapsed: u64) -> (level: u32)
        requires
            self@.wf(),
        ensures
            level == self@.mosi_level(elapsed as int),
    {
        let slot: u64 = elapsed / self.bit_cycles;
        if slot >= self.total_bits {
            return self.d_pol;
        }
        if slot < self.cmd_bits {
            let b: u32 = (self.cmd_bits - 1 - slot) as u32;
            return (self.cmd_value >> b) & 1;
        }
        let rest: u64 = slot - self.cmd_bits;
        if rest < self.addr_bits {
            let b: u32 = (self.addr_bits - 1 - rest) as u32;
            return (self.addr_value >> b) & 1;
        }
        if !self.have_mosi {
            return 0;
        }
        self.data_bit(rest - self.addr_bits)
    }

    /// APB cycles that the whole transaction takes.
    fn length(&self) -> (n: u64)
        requires
            self@.wf(),
        ensures
            n == self@.total_bits * self@.bit_cycles,
    {
        assert(self.total_bits * self.bit_cycles <= 0x20_0000_0000_0200 * 1024) by (nonlinear_arith)
            requires
                self.total_bits <= 0x20_0000_0000_0200,
                self.bit_cycles <= 1024,
        ;
        self.total_bits * self.bit_cycles
    }

    /// Level of the clock line.
    fn clock_level(&self, elapsed: u64) -> (level: u32)
        requires
            self@.wf(),
        ensures
            level == self@.clock_level(elapsed as int),
    {
        if elapsed >= self.length() {
            return self.ck_pol;
        }
        let phase: u64 = elapsed % self.bit_cycles;
        if phase >= self.low_ticks {
            self.ck_pol ^ 1
        } else {
            self.ck_pol ^ 0
        }
    }

    /// Level of a chip-select line.
    fn cs_level(&self, elapsed: u64, disabled: bool) -> (level: u32)
        requires
            self@.wf(),
        ensures
            level == self@.cs_level(elapsed as int, disabled),
    {
        if disabled {
            return 1;
        }
        if elapsed < self.length() {
            0
        } else {
            1
        }
    }
}

/// Contents of an optional byte string.
pub open spec fn opt_bytes(o: Option<Vec<u8>>) -> Option<Seq<u8>> {
    match o {
        Some(v) => Some(v@),
        None => None,
    }
}

/// Copy of a byte string.
fn copy_bytes(bytes: &[u8]) -> (v: Vec<u8>)
    ensures
        v@ == bytes@,
{
    let mut v: Vec<u8> = Vec::new();
    v.extend_from_slice(bytes);
    assert(v@ =~= bytes@);
    v
}

/// One general-purpose SPI controller (GPSPI2 is index 0, GPSPI3 index 1).
pub struct Spi {
    regs: [u32; REG_COUNT],
    idx: u32,
    txn: Option<Txn>,
    last_tx: Option<Vec<u8>>,
    pending_miso: Option<Vec<u8>>,
    dma_tx: Vec<u8>,
    dma_rx: Vec<u8>,
    quad_fake: Option<Vec<u8>>,
    sdspi: SdspiCard,
    sdspi_cs_low: bool,
}

impl View for Spi {
    type V = SpiState;

    closed spec fn view(&self) -> SpiState {
        SpiState {
            regs: self.regs@,
            idx: self.idx,
            txn: match self.txn {
                Some(t) => Some(t@),
                None => None,
            },
            last_tx: opt_bytes(self.last_tx),
            pending_miso: opt_bytes(self.pending_miso),
            dma_tx: self.dma_tx@,
            dma_rx: self.dma_rx@,
            quad_fake: opt_bytes(self.quad_fake),
            sdspi: self.sdspi@,
            sdspi_cs_low: self.sdspi_cs_low,
        }
    }
}

impl Default for Spi {
    fn default() -> (spi: Self)
        ensures
            spi@ == SpiState::reset(0),
    {
        Self::new(0)
    }
}

impl Spi {
    pub fn new(idx: u32) -> (spi: Self)
        ensures
            spi@ == SpiState::reset(idx),
            spi@.wf(),
    {
        let spi = Spi {
            regs: [0u32; REG_COUNT],
            idx,
            txn: None,
            last_tx: None,
            pending_miso: None,
            dma_tx: Vec::new(),
            dma_rx: Vec::new(),
            quad_fake: None,
            sdspi: SdspiCard::new(),
            sdspi_cs_low: true,
        };
        assert(spi@ =~= SpiState::reset(idx));
        spi
    }

    /// Latch the level of the card's select line for the next transaction end.
    pub fn set_sdspi_cs(&mut self, low: bool)
        ensures
            final(self)@ == (SpiState { sdspi_cs_low: low, ..old(self)@ }),
    {
        self.sdspi_cs_low = low;
    }

    /// Hold the card selected regardless of any pin.
    pub fn sdspi_test_select(&mut self)
        ensures
            final(self)@ == (SpiState { sdspi_cs_low: true, ..old(self)@ }),
    {
        self.sdspi_cs_low = true;
    }

    /// Attach the SPI-mode SD card with `blocks` zeroed 512-byte blocks.
    pub fn sdspi_attach(&mut self, blocks: usize)
        requires
            blocks * 512 <= usize::MAX,
        ensures
            final(self)@ == (SpiState {
                sdspi: old(self)@.sdspi.attached_with(
                    Seq::new((blocks * 512) as nat, |i: int| 0u8),
                ),
                ..old(self)@
            }),
    {
        self.sdspi.attach(blocks);
    }

    /// Attach the SPI-mode SD card with a preformatted image.
    pub fn sdspi_attach_image(&mut self, image: &[u8])
        ensures
            final(self)@ == (SpiState {
                sdspi: old(self)@.sdspi.attached_with(image@),
                ..old(self)@
            }),
    {
        self.sdspi.attach_image(image);
    }

    /// True once the card is attached.
    pub fn sdspi_attached(&self) -> (r: bool)
        ensures
            r == self@.sdspi.attached,
    {
        self.sdspi.attached()
    }

    /// Chip-select the card (`sel` while its select line is low).
    pub fn sdspi_select(&mut self, sel: bool)
        ensures
            final(self)@ == (SpiState { sdspi: old(self)@.sdspi.with_select(sel), ..old(self)@ }),
    {
        self.sdspi.select(sel);
    }

    /// Inject input bytes for the next transfer that has an input window.
    pub fn inject_miso(&mut self, bytes: &[u8])
        ensures
            final(self)@ == (SpiState { pending_miso: Some(bytes@), ..old(self)@ }),
    {
        self.pending_miso = Some(copy_bytes(bytes));
    }

    /// Wire width: 0 single, 1 dual, 2 quad (quad wins when both are set).
    pub fn quad_mode(&self) -> (mode: u32)
        ensures
            mode == self@.quad_mode(),
    {
        let ctrl: u32 = self.regs[(SPI_CTRL / 4) as usize];
        if ctrl & CTRL_QUAD != 0 {
            2
        } else if ctrl & CTRL_DUAL != 0 {
            1
        } else {
            0
        }
    }

    /// Provision the wide-mode pattern device. Reads and writes wrap the store.
    pub fn quad_fake_provision(&mut self, pattern: &[u8])
        ensures
            final(self)@ == (SpiState { quad_fake: Some(pattern@), ..old(self)@ }),
    {
        self.quad_fake = Some(copy_bytes(pattern));
    }

    /// `nbytes` bytes of the pattern device from `addr` on, if it holds any.
    fn quad_fake_read(&self, addr: u32, nbytes: u64) -> (out: Option<Vec<u8>>)
        requires
            nbytes <= 0x2_0000_0000_0000,
        ensures
            opt_bytes(out) == if self@.quad_fake is Some && self@.quad_fake->0.len() > 0 && nbytes
                > 0 {
                Some(quad_read(self@.quad_fake->0, addr, nbytes as nat))
            } else {
                None
            },
    {
        match &self.quad_fake {
            None => None,
            Some(store) => {
                if store.is_empty() || nbytes == 0 {
                    return None;
                }
                let ghost all = quad_read(store@, addr, nbytes as nat);
                let mut out: Vec<u8> = Vec::new();
                let mut i: u64 = 0;
                while i < nbytes
                    invariant
                        i <= nbytes,
                        nbytes <= 0x2_0000_0000_0000,
                        store@.len() > 0,
                        all == quad_read(store@, addr, nbytes as nat),
                        out@ == all.take(i as int),
                    decreases nbytes - i,
                {
                    let k: u64 = (addr as u64 + i) % (store.len() as u64);
                    out.push(store[k as usize]);
                    assert(out@ =~= all.take(i + 1));
                    i = i + 1;
                }
                assert(out@ =~= all);
                Some(out)
            },
        }
    }

    /// Commit output bytes into the pattern device.
    fn quad_fake_write(&mut self, addr: u32, bytes: &Vec<u8>)
        requires
            bytes@.len() <= 0x2_0000_0000_0000,
        ensures
            final(self)@ == (SpiState {
                quad_fake: match old(self)@.quad_fake {
                    Some(store) => Some(quad_written(store, addr, bytes@)),
                    None => None,
                },
                ..old(self)@
            }),
    {
        let mut taken: Option<Vec<u8>> = None;
        core::mem::swap(&mut taken, &mut self.quad_fake);
        if let Some(mut store) = taken {
            let ghost store0 = store@;
            if !store.is_empty() {
                let mut i: usize = 0;
                assert(bytes@.take(0) =~= Seq::<u8>::empty());
                while i < bytes.len()
                    invariant
                        i <= bytes@.len() <= 0x2_0000_0000_0000,
                        store0.len() > 0,
                        store@.len() == store0.len(),
                        store@ == quad_written(store0, addr, bytes@.take(i as int)),
                    decreases bytes@.len() - i,
                {
                    let k: u64 = (addr as u64 + i as u64) % (store.len() as u64);
                    assert(bytes@.take(i + 1).drop_last() =~= bytes@.take(i as int));
                    store[k as usize] = bytes[i];
                    i = i + 1;
                }
                assert(bytes@.take(i as int) =~= bytes@);
            }
            self.quad_fake = Some(store);
        }
        assert(self@ =~= (SpiState {
            quad_fake: match old(self)@.quad_fake {
                Some(store) => Some(quad_written(store, addr, bytes@)),
                None => None,
            },
            ..old(self)@
        }));
    }

    /// True when the controller is in slave mode.
    pub fn is_slave(&self) -> (r: bool)
        ensures
            r == self@.is_slave(),
    {
        self.regs[(SPI_SLAVE / 4) as usize] & SLAVE_MODE != 0
    }

    /// True when a slave receive goes through DMA.
    pub fn slave_dma_rx_enabled(&self) -> (r: bool)
        ensures
            r == self@.dma_rx_slave(),
    {
        self.is_slave() && self.regs[(SPI_DMA_CONF / 4) as usize] & DMA_RX_ENA != 0
    }

    /// True when a slave transmit goes through DMA.
    pub fn slave_dma_tx_enabled(&self) -> (r: bool)
        ensures
            r == self@.dma_tx_slave(),
    {
        self.is_slave() && self.regs[(SPI_DMA_CONF / 4) as usize] & DMA_TX_ENA != 0
    }

    /// Record the length field of a slave exchange and latch `done`.
    fn end_exchange(&mut self, bits: u32, done: u32)
        ensures
            final(self)@ == old(self)@.with_bitlen(
                (if bits <= 0x4_0000 { bits } else { 0x4_0000 }) & SLAVE1_DATA_BITLEN_MASK,
            ).latching(done),
    {
        let bitlen: u32 = if bits <= 0x4_0000 { bits } else { 0x4_0000 };
        let s1: u32 = self.regs[(SPI_SLAVE1 / 4) as usize];
        self.regs[(SPI_SLAVE1 / 4) as usize] = (s1 & !SLAVE1_DATA_BITLEN_MASK) | (bitlen
            & SLAVE1_DATA_BITLEN_MASK);
        let raw: u32 = self.regs[(SPI_INT_RAW / 4) as usize];
        self.regs[(SPI_INT_RAW / 4) as usize] = raw | done;
    }

    /// Record the end of a DMA-backed slave exchange of `bits` bits.
    pub fn slave_dma_done(&mut self, bits: u32, is_write: bool)
        ensures
            final(self)@ == old(self)@.slave_done(bits, is_write),
            old(self)@.wf() ==> final(self)@.wf(),
    {
        self.end_exchange(bits, if is_write { INT_WR_DMA_DONE } else { INT_RD_DMA_DONE });
    }

    /// Fill the data buffer from a byte string.
    fn fill_data_buf(&mut self, bytes: &[u8])
        ensures
            final(self)@ == old(self)@.with_data_buf(bytes@),
    {
        let mut w: usize = 0;
        while w < DATA_WORDS
            invariant
                w <= DATA_WORDS,
                self@ == (SpiState { regs: self.regs@, ..old(self)@ }),
                old(self)@.regs.len() == REG_COUNT,
                self.regs@ == Seq::new(
                    REG_COUNT as nat,
                    |i: int|
                        if DATA_IDX <= i < DATA_IDX + w {
                            packed_word(bytes@, i - DATA_IDX)
                        } else {
                            old(self)@.regs[i]
                        },
                ),
            decreases DATA_WORDS - w,
        {
            self.regs[DATA_IDX + w] = pack_word(bytes, w as u64);
            w = w + 1;
            assert(self.regs@ =~= Seq::new(
                REG_COUNT as nat,
                |i: int|
                    if DATA_IDX <= i < DATA_IDX + w {
                        packed_word(bytes@, i - DATA_IDX)
                    } else {
                        old(self)@.regs[i]
                    },
            ));
        }
        assert(self@ =~= old(self)@.with_data_buf(bytes@));
    }

    /// A master write to this slave: capture `bytes` into the data buffer,
    /// record the length and latch `trans_done`. Only acts in slave mode.
    pub fn slave_inject_write(&mut self, bytes: &[u8])
        ensures
            final(self)@ == old(self)@.after_slave_write(bytes@),
            old(self)@.wf() ==> final(self)@.wf(),
    {
        if !self.is_slave() {
            return;
        }
        self.fill_data_buf(bytes);
        let bits: u32 = (bytes.len() as u64).wrapping_mul(8) as u32;
        proof {
            lemma_bits_of_len(bytes@.len());
        }
        self.end_exchange(bits, INT_TRANS_DONE);
    }

    /// A master read from this slave: return the first `nbytes` bytes of the
    /// data buffer, record the length and latch `trans_done`. Only acts in slave
    /// mode.
    pub fn slave_take_read(&mut self, nbytes: usize) -> (out: Vec<u8>)
        ensures
            out@ == old(self)@.slave_bytes(nbytes as nat),
            final(self)@ == old(self)@.after_slave_read(nbytes as nat),
            old(self)@.wf() ==> final(self)@.wf(),
    {
        if !self.is_slave() {
            return Vec::new();
        }
        let ghost all = Seq::new(nbytes as nat, |i: int| unpacked_byte(self@.data_buf(), i));
        let mut out: Vec<u8> = Vec::new();
        let mut b: usize = 0;
        while b < nbytes
            invariant
                b <= nbytes,
                self@ == old(self)@,
                all == Seq::new(nbytes as nat, |i: int| unpacked_byte(self@.data_buf(), i)),
                out@ == all.take(b as int),
            decreases nbytes - b,
        {
            let w: usize = b / 4;
            let v: u8 = if w < DATA_WORDS {
                lane(self.regs[DATA_IDX + w], (b % 4) as u32)
            } else {
                0
            };
            out.push(v);
            assert(out@ =~= all.take(b + 1));
            b = b + 1;
        }
        assert(out@ =~= all);
        let bits: u32 = (nbytes as u64).wrapping_mul(8) as u32;
        proof {
            lemma_bits_of_len(nbytes as nat);
        }
        self.end_exchange(bits, INT_TRANS_DONE);
        out
    }

    /// Take the output bytes of the last completed transfer.
    pub fn take_last_tx(&mut self) -> (tx: Option<Vec<u8>>)
        ensures
            opt_bytes(tx) == old(self)@.last_tx,
            final(self)@ == (SpiState { last_tx: None, ..old(self)@ }),
    {
        self.last_tx.take()
    }

    /// Advance `cycles` APB cycles; the transaction ends when its bit stream is
    /// complete.
    pub fn tick(&mut self, cycles: u64)
        requires
            old(self)@.wf(),
        ensures
            final(self)@ == old(self)@.ticked(cycles),
            final(self)@.wf(),
    {
        let run: bool = self.regs[(SPI_CLK_GATE / 4) as usize] & CLK_GATE_CLK_EN != 0;
        if !run || cycles == 0 {
            return;
        }
        let mut taken: Option<Txn> = None;
        core::mem::swap(&mut taken, &mut self.txn);
        if let Some(mut t) = taken {
            if t.remain <= cycles {
                self.complete(t);
            } else {
                t.remain = t.remain - cycles;
                self.txn = Some(t);
                assert(self@ =~= old(self)@.ticked(cycles));
            }
        }
    }

    /// Clock bytes through the card; returns its answers.
    fn clock_card(&mut self, bytes: &Vec<u8>) -> (rx: Vec<u8>)
        ensures
            rx@ == old(self)@.sdspi.miso_all(bytes@),
            final(self)@ == (SpiState {
                sdspi: old(self)@.sdspi.fed_all(bytes@),
                ..old(self)@
            }),
    {
        let mut rx: Vec<u8> = Vec::new();
        let mut i: usize = 0;
        assert(bytes@.take(0) =~= Seq::<u8>::empty());
        while i < bytes.len()
            invariant
                i <= bytes@.len(),
                rx@ == old(self)@.sdspi.miso_all(bytes@.take(i as int)),
                self@ == (SpiState {
                    sdspi: old(self)@.sdspi.fed_all(bytes@.take(i as int)),
                    ..old(self)@
                }),
            decreases bytes@.len() - i,
        {
            assert(bytes@.take(i + 1).drop_last() =~= bytes@.take(i as int));
            let b: u8 = self.sdspi.feed(bytes[i]);
            rx.push(b);
            i = i + 1;
        }
        assert(bytes@.take(i as int) =~= bytes@);
        rx
    }

    /// Run transaction `t`'s data phase through the card; returns its answers.
    fn exchange_with_card(&mut self, t: &Txn, mosi: &Vec<u8>) -> (rx: Vec<u8>)
        requires
            t@.wf(),
            mosi@ == t@.mosi_bytes(),
        ensures
            rx@ == old(self)@.card_before_answer(t@).miso_all(old(self)@.card_clocked(t@)),
            final(self)@ == (SpiState {
                sdspi: old(self)@.card_before_answer(t@).fed_all(old(self)@.card_clocked(t@)),
                ..old(self)@
            }),
    {
        let cs_low: bool = self.sdspi_cs_low;
        self.sdspi.select(cs_low);
        let on: bool = self.sdspi.attached() && !t.dma;
        if on && t.have_mosi && !(t.have_miso && t.doutdin) {
            self.sdspi.collect_cmd_bytes(mosi.as_slice());
        }
        assert(self@.sdspi == old(self)@.card_before_answer(t@));
        if on && t.have_miso {
            if t.doutdin && t.have_mosi {
                return self.clock_card(mosi);
            }
            let n: u64 = count_bytes(t.data_bits);
            let mut idle: Vec<u8> = Vec::new();
            let mut i: u64 = 0;
            while i < n
                invariant
                    i <= n,
                    idle@ == Seq::new(i as nat, |k: int| 0xFFu8),
                decreases n - i,
            {
                idle.push(0xFF);
                i = i + 1;
                assert(idle@ =~= Seq::new(i as nat, |k: int| 0xFFu8));
            }
            return self.clock_card(&idle);
        }
        Vec::new()
    }

    /// The input bytes of transaction `t`, given the card's answers; consumes
    /// the injected bytes.
    fn take_input(&mut self, t: &Txn, card_rx: Vec<u8>) -> (input: Vec<u8>)
        requires
            t@.wf(),
            t@.dma || t@.have_miso,
        ensures
            input@ == if card_rx@.len() > 0 {
                card_rx@
            } else if old(self)@.pending_miso is Some {
                old(self)@.pending_miso->0
            } else if old(self)@.quad_mode() != 0 && old(self)@.quad_fake is Some && old(
                self,
            )@.quad_fake->0.len() > 0 {
                quad_read(old(self)@.quad_fake->0, t@.addr_value, bytes_for(t@.data_bits))
            } else {
                Seq::empty()
            },
            final(self)@ == (SpiState { pending_miso: None, ..old(self)@ }),
    {
        let injected: Option<Vec<u8>> = self.pending_miso.take();
        if !card_rx.is_empty() {
            return card_rx;
        }
        if let Some(miso) = injected {
            return miso;
        }
        if self.quad_mode() != 0 {
            let n: u64 = count_bytes(t.data_bits);
            if let Some(fake) = self.quad_fake_read(t.addr_value, n) {
                return fake;
            }
            proof {
                assert(quad_read(old(self)@.quad_fake->0, t@.addr_value, 0) =~= Seq::empty());
            }
        }
        Vec::new()
    }

    /// Finish transaction `t`: capture the input bytes, latch `trans_done` and
    /// clear `CMD.usr`.
    fn complete(&mut self, t: Txn)
        requires
            old(self)@.regs.len() == REG_COUNT,
            old(self)@.dma_tx.len() <= STAGED_MAX,
            old(self)@.txn is None,
            t@.wf(),
        ensures
            final(self)@ == (SpiState { txn: Some(t@), ..old(self)@ }).completed(t@),
            final(self)@.wf(),
    {
        let ghost s0 = SpiState { txn: Some(t@), ..self@ };
        let mosi: Vec<u8> = t.collect_mosi();
        let quad: u32 = self.quad_mode();
        let rx: Vec<u8> = self.exchange_with_card(&t, &mosi);
        if t.dma || t.have_miso {
            let input: Vec<u8> = self.take_input(&t, rx);
            assert(input@ == s0.input_bytes(t@));
            if t.dma {
                let n: u64 = count_bytes(t.data_bits);
                let mut cap: Vec<u8> = Vec::new();
                let mut i: u64 = 0;
                while i < n
                    invariant
                        i <= n,
                        cap@ == Seq::new(i as nat, |k: int| byte_or_zero(input@, k)),
                    decreases n - i,
                {
                    cap.push(get_byte_or_zero(input.as_slice(), i));
                    i = i + 1;
                    assert(cap@ =~= Seq::new(i as nat, |k: int| byte_or_zero(input@, k)));
                }
                self.dma_rx = cap;
            } else {
                let mut bytes: Vec<u8> = Vec::new();
                let mut i: usize = 0;
                while i < input.len()
                    invariant
                        i <= input@.len(),
                        bytes@ == Seq::new(i as nat, |k: int| ordered(input@[k], t.rd_lsb)),
                    decreases input@.len() - i,
                {
                    bytes.push(order_byte(input[i], t.rd_lsb));
                    i = i + 1;
                    assert(bytes@ =~= Seq::new(i as nat, |k: int| ordered(input@[k], t.rd_lsb)));
                }
                self.fill_data_buf(bytes.as_slice());
            }
        }
        if t.have_mosi && quad != 0 && self.quad_fake.is_some() {
            self.quad_fake_write(t.addr_value, &mosi);
        }
        self.last_tx = Some(mosi);
        let raw: u32 = self.regs[(SPI_INT_RAW / 4) as usize];
        self.regs[(SPI_INT_RAW / 4) as usize] = raw | INT_TRANS_DONE;
        let cmd: u32 = self.regs[(SPI_CMD / 4) as usize];
        self.regs[(SPI_CMD / 4) as usize] = cmd & !CMD_USR;
        assert(self@ =~= s0.completed(t@));
    }

    /// Trigger a transfer if `CMD.usr` is set.
    fn maybe_trigger(&mut self)
        requires
            old(self)@.wf(),
        ensures
            final(self)@ == old(self)@.triggered(),
            final(self)@.wf(),
    {
        let cmd: u32 = self.regs[(SPI_CMD / 4) as usize];
        if cmd & CMD_USR == 0 || self.txn.is_some() || self.is_slave() {
            return;
        }
        let (fixed, data_bits): (u64, u64) = self.phases();
        if fixed + data_bits == 0 {
            self.regs[(SPI_CMD / 4) as usize] = cmd & !CMD_USR;
            assert(self@ =~= old(self)@.triggered());
            return;
        }
        let mut buf: Vec<u32> = Vec::new();
        let mut w: usize = 0;
        while w < DATA_WORDS
            invariant
                w <= DATA_WORDS,
                self@ == old(self)@,
                buf@ == self@.data_buf().take(w as int),
            decreases DATA_WORDS - w,
        {
            buf.push(self.regs[DATA_IDX + w]);
            w = w + 1;
            assert(buf@ =~= self@.data_buf().take(w as int));
        }
        assert(buf@ =~= self@.data_buf());
        let user: u32 = self.regs[(SPI_USER / 4) as usize];
        let window: u64 = if user & USER_USR_MOSI != 0 && user & USER_USR_MISO != 0 && !(user
            & USER_DOUTDIN != 0) {
            data_bits * 2
        } else {
            data_bits
        };
        let t: Txn = self.plan(data_bits, window, false, buf);
        self.start(t);
    }

    /// Slots of the command, address and dummy phases, and of the data phase.
    fn phases(&self) -> (r: (u64, u64))
        requires
            self@.wf(),
        ensures
            r.0 == self@.cmd_bits() + self@.addr_bits() + self@.dummy_bits(),
            r.1 == self@.data_bits(),
            r.0 <= 304,
            r.1 <= 0x4_0000,
    {
        broadcast use crate::bits::lemma_shr_le;

        let user: u32 = self.regs[(SPI_USER / 4) as usize];
        let user1: u32 = self.regs[(SPI_USER1 / 4) as usize];
        let user2: u32 = self.regs[(SPI_USER2 / 4) as usize];
        let ms_dlen: u32 = self.regs[(SPI_MS_DLEN / 4) as usize];
        proof {
            lemma_shift_28();
        }
        let cmd_bits: u64 = if user & USER_USR_COMMAND != 0 { (user2 >> 28) as u64 + 1 } else { 0 };
        let addr_bits: u64 = if user & USER_USR_ADDR != 0 {
            ((user1 >> 27) & 0x1F) as u64 + 1
        } else {
            0
        };
        let dummy_bits: u64 = if user & USER_USR_DUMMY != 0 { (user1 & 0xFF) as u64 + 1 } else { 0 };
        let data_bits: u64 = if user & USER_USR_MOSI != 0 || user & USER_USR_MISO != 0 {
            (ms_dlen & MS_DLEN_DATA_BITLEN_MASK) as u64 + 1
        } else {
            0
        };
        (cmd_bits + addr_bits + dummy_bits, data_bits)
    }

    /// Snapshot the phase and timing configuration into a transaction.
    fn plan(&self, data_bits: u64, window: u64, dma: bool, buf: Vec<u32>) -> (t: Txn)
        requires
            self@.wf(),
            data_bits < 0x10_0000_0000_0000,
            data_bits <= window <= 2 * data_bits,
            self@.cmd_bits() + self@.addr_bits() + self@.dummy_bits() + data_bits > 0,
        ensures
            t@ == self@.planned(data_bits, window, dma, buf@),
            t@.wf(),
    {
        broadcast use crate::bits::lemma_shr_le;

        let user: u32 = self.regs[(SPI_USER / 4) as usize];
        let user1: u32 = self.regs[(SPI_USER1 / 4) as usize];
        let user2: u32 = self.regs[(SPI_USER2 / 4) as usize];
        let clock: u32 = self.regs[(SPI_CLOCK / 4) as usize];
        let misc: u32 = self.regs[(SPI_MISC / 4) as usize];
        let ctrl: u32 = self.regs[(SPI_CTRL / 4) as usize];
        proof {
            lemma_shift_28();
        }
        let cmd_bits: u64 = if user & USER_USR_COMMAND != 0 { (user2 >> 28) as u64 + 1 } else { 0 };
        let addr_bits: u64 = if user & USER_USR_ADDR != 0 {
            ((user1 >> 27) & 0x1F) as u64 + 1
        } else {
            0
        };
        let dummy_bits: u64 = if user & USER_USR_DUMMY != 0 { (user1 & 0xFF) as u64 + 1 } else { 0 };
        let n: u64 = ((clock >> 12) & 0x3F) as u64 + 1;
        let h: u64 = ((clock >> 6) & 0x3F) as u64 + 1;
        let pre: u64 = ((clock >> 18) & 0xF) as u64 + 1;
        let low_cycles: u64 = if h >= n { 0 } else { n - h };
        assert(1 <= pre * n <= 1024) by (nonlinear_arith)
            requires
                1 <= pre <= 16,
                1 <= n <= 64,
        ;
        assert(0 <= low_cycles * pre <= 1024) by (nonlinear_arith)
            requires
                1 <= pre <= 16,
                0 <= low_cycles <= 64,
        ;
        let bit_cycles: u64 = if clock & CLOCK_EQU_SYSCLK != 0 { 1 } else { pre * n };
        let low_ticks: u64 = low_cycles * pre;
        let total_bits: u64 = cmd_bits + addr_bits + dummy_bits + window;
        assert(1 <= total_bits * bit_cycles <= 0x20_0000_0000_0200 * 1024) by (nonlinear_arith)
            requires
                1 <= total_bits <= 0x20_0000_0000_0200,
                1 <= bit_cycles <= 1024,
        ;
        let t = Txn {
            bit_cycles,
            low_ticks,
            total_bits,
            cmd_bits,
            addr_bits,
            data_bits,
            have_mosi: user & USER_USR_MOSI != 0,
            have_miso: user & USER_USR_MISO != 0,
            doutdin: dma || user & USER_DOUTDIN != 0,
            dma,
            ck_pol: (misc >> 29) & 1,
            d_pol: (ctrl >> 20) & 1,
            wr_lsb: ctrl & CTRL_WR_BIT_ORDER != 0,
            rd_lsb: ctrl & CTRL_RD_BIT_ORDER != 0,
            cmd_value: user2 & 0xFFFF,
            addr_value: self.regs[(SPI_ADDR / 4) as usize],
            buf,
            remain: total_bits * bit_cycles,
        };
        assert(t@ =~= self@.planned(data_bits, window, dma, buf@));
        t
    }

    /// Start a transaction.
    fn start(&mut self, t: Txn)
        requires
            old(self)@.wf(),
            t@.wf(),
        ensures
            final(self)@ == old(self)@.starting(t@),
            final(self)@.wf(),
    {
        let raw: u32 = self.regs[(SPI_INT_RAW / 4) as usize];
        self.regs[(SPI_INT_RAW / 4) as usize] = raw & !INT_TRANS_DONE;
        self.txn = Some(t);
        assert(self@ =~= old(self)@.starting(t@));
    }

    /// Append bytes to the DMA output staging.
    pub fn spi_dma_feed(&mut self, bytes: &[u8])
        requires
            old(self)@.wf(),
            old(self)@.dma_tx.len() + bytes@.len() <= STAGED_MAX,
        ensures
            final(self)@ == (SpiState { dma_tx: old(self)@.dma_tx + bytes@, ..old(self)@ }),
            final(self)@.wf(),
    {
        self.dma_tx.extend_from_slice(bytes);
        assert(self@ =~= (SpiState { dma_tx: old(self)@.dma_tx + bytes@, ..old(self)@ }));
    }

    /// Bytes staged for the next transfer.
    pub fn dma_staged(&self) -> (n: usize)
        ensures
            n == self@.dma_tx.len(),
    {
        self.dma_tx.len()
    }

    /// Start a DMA-backed master transfer from the staged bytes.
    pub fn dma_trigger(&mut self)
        requires
            old(self)@.wf(),
        ensures
            final(self)@ == old(self)@.dma_triggered(),
            final(self)@.wf(),
    {
        if self.txn.is_some() || self.is_slave() {
            return;
        }
        let mut staged: Vec<u8> = Vec::new();
        core::mem::swap(&mut staged, &mut self.dma_tx);
        let (fixed, reg_bits): (u64, u64) = self.phases();
        let fed_bits: u64 = staged.len() as u64 * 8;
        let data_bits: u64 = if reg_bits >= fed_bits { reg_bits } else { fed_bits };
        if fixed + data_bits == 0 {
            assert(self@ =~= old(self)@.dma_triggered());
            return;
        }
        let nwords: u64 = (data_bits + 31) / 32;
        let mut buf: Vec<u32> = Vec::new();
        let mut w: u64 = 0;
        while w < nwords
            invariant
                w <= nwords <= 0x8000_0000_0000,
                buf@ == packed(staged@, w as nat),
            decreases nwords - w,
        {
            buf.push(pack_word(staged.as_slice(), w));
            w = w + 1;
            assert(buf@ =~= packed(staged@, w as nat));
        }
        let t: Txn = self.plan(data_bits, data_bits, true, buf);
        self.start(t);
        assert(self@ =~= old(self)@.dma_triggered());
    }

    /// Little-endian word of the captured input bytes at byte offset `off`.
    pub fn dma_rx_word(&self, off: u32) -> (w: u32)
        ensures
            w == self@.dma_rx_word(off),
    {
        let o: u64 = off as u64;
        let rx: &[u8] = self.dma_rx.as_slice();
        word_from_le(
            get_byte_or_zero(rx, o),
            get_byte_or_zero(rx, o + 1),
            get_byte_or_zero(rx, o + 2),
            get_byte_or_zero(rx, o + 3),
        )
    }

    /// Current level of output signal `sig`, 0 if not this controller's.
    pub fn signal_level(&self, sig: u32) -> (level: u32)
        requires
            self@.wf(),
        ensures
            level == self@.signal_level(sig),
    {
        let clk_sig: u32 = if self.idx == 0 { 101 } else { 66 };
        let d_sig: u32 = clk_sig + 2;
        let cs0_sig: u32 = if self.idx == 0 { 110 } else { 71 };
        let cs1_sig: u32 = if self.idx == 0 { 111 } else { 72 };
        let ctrl: u32 = self.regs[(SPI_CTRL / 4) as usize];
        let misc: u32 = self.regs[(SPI_MISC / 4) as usize];
        match &self.txn {
            None => {
                if sig == clk_sig {
                    (misc & MISC_CK_IDLE_EDGE) >> 29
                } else if sig == d_sig {
                    (ctrl & CTRL_D_POL) >> 20
                } else if sig == cs0_sig || sig == cs1_sig {
                    1
                } else {
                    0
                }
            },
            Some(t) => {
                let elapsed: u64 = t.length() - t.remain;
                if sig == clk_sig {
                    t.clock_level(elapsed)
                } else if sig == d_sig {
                    t.mosi_level(elapsed)
                } else if sig == cs0_sig {
                    t.cs_level(elapsed, misc & MISC_CS0_DIS != 0)
                } else if sig == cs1_sig {
                    t.cs_level(elapsed, (misc & MISC_CS1_DIS) >> 1 != 0)
                } else {
                    0
                }
            },
        }
    }

    /// Interrupt status: raw bits that are enabled.
    pub fn int_st(&self) -> (st: u32)
        ensures
            st == self@.int_st(),
    {
        let raw: u32 = self.regs[(SPI_INT_RAW / 4) as usize];
        let ena: u32 = self.regs[(SPI_INT_ENA / 4) as usize];
        raw & ena
    }

    pub fn read32(&mut self, offset: u32) -> (v: u32)
        ensures
            v == old(self)@.read(offset),
            final(self)@ == old(self)@,
    {
        if offset >= 4 * REG_COUNT as u32 {
            return 0;
        }
        match offset {
            SPI_INT_ST => self.int_st(),
            SPI_INT_CLR => 0,
            _ => self.regs[(offset / 4) as usize],
        }
    }

    pub fn write32(&mut self, offset: u32, value: u32)
        requires
            old(self)@.wf(),
        ensures
            final(self)@ == old(self)@.written(offset, value),
            final(self)@.wf(),
    {
        if offset % 4 == 0 && offset < 4 * REG_COUNT as u32 {
            match offset {
                SPI_INT_CLR => {
                    let raw: u32 = self.regs[(SPI_INT_RAW / 4) as usize];
                    self.regs[(SPI_INT_RAW / 4) as usize] = raw & !value;
                },
                SPI_INT_SET => {
                    let raw: u32 = self.regs[(SPI_INT_RAW / 4) as usize];
                    self.regs[(SPI_INT_RAW / 4) as usize] = raw | value;
                    self.regs[(SPI_INT_SET / 4) as usize] = value;
                },
                SPI_CMD => {
                    self.regs[(SPI_CMD / 4) as usize] = if value & CMD_UPDATE != 0 {
                        value & !CMD_UPDATE
                    } else {
                        value
                    };
                    self.maybe_trigger();
                },
                _ => {
                    self.regs[(offset / 4) as usize] = value;
                },
            }
        }
    }
}

/// A right shift by 28 leaves four bits.
proof fn lemma_shift_28()
    ensures
        0xFFFF_FFFFu32 >> 28 == 15,
{
    crate::bits::lemma_constants();
}

/// Eight times a length, truncated to a word.
proof fn lemma_bits_of_len(n: nat)
    requires
        n <= u64::MAX,
    ensures
        (n as u64).wrapping_mul(8) as u32 == (n * 8) as u32,
{
    let x = n as u64;
    let y = x.wrapping_mul(8);
    assert(y as u32 == (x * 8) as u32) by (bit_vector)
        requires
            y == (x * 8) % 0x1_0000_0000_0000_0000,
    ;
}

/// Clearing and setting interrupts: a write of `INT_CLR` clears exactly the
/// written bits of `INT_RAW`, a write of `INT_SET` sets exactly those, and no
/// transaction state changes.
pub proof fn law_interrupt_registers(s: SpiState, v: u32)
    requires
        s.wf(),
    ensures
        s.written(SPI_INT_CLR, v).reg(SPI_INT_RAW) == s.reg(SPI_INT_RAW) & !v,
        s.written(SPI_INT_SET, v).reg(SPI_INT_RAW) == s.reg(SPI_INT_RAW) | v,
        s.written(SPI_INT_CLR, v).txn == s.txn,
        s.written(SPI_INT_SET, v).txn == s.txn,
        s.read(SPI_INT_ST) == s.reg(SPI_INT_RAW) & s.reg(SPI_INT_ENA),
        s.read(SPI_INT_CLR) == 0,
{
}

/// Time is additive: while a transaction runs, ticking `a` and then `b` cycles is
/// ticking `a + b` cycles.
pub proof fn law_tick_additive(s: SpiState, a: u64, b: u64)
    requires
        s.wf(),
        s.txn is Some,
        a < s.txn->0.remain,
        a + b <= u64::MAX,
    ensures
        s.ticked(a).ticked(b) == s.ticked((a + b) as u64),
{
}

/// A started transaction runs for exactly one SPI clock per bit slot, and no
/// longer: it is running after any shorter time and over after that time.
pub proof fn law_transaction_duration(s: SpiState, cycles: u64)
    requires
        s.wf(),
        s.txn is None,
        s.triggered().txn is Some,
        s.reg(SPI_CLK_GATE) & CLK_GATE_CLK_EN != 0,
    ensures
        ({
            let t = s.triggered().txn->0;
            s.triggered().ticked(cycles).txn is Some <==> cycles < t.total_bits * t.bit_cycles
        }),
{
    let t = s.triggered().txn->0;
    lemma_planned_fits(s);
}

/// The length of a planned transaction fits in its counter.
proof fn lemma_planned_fits(s: SpiState)
    requires
        s.wf(),
        s.txn is None,
        s.triggered().txn is Some,
    ensures
        s.triggered().txn->0.remain == s.triggered().txn->0.total_bits
            * s.triggered().txn->0.bit_cycles,
        s.triggered().txn->0.remain > 0,
{
    broadcast use crate::bits::lemma_shr_le;

    lemma_shift_28();
    let t = s.triggered().txn->0;
    let pre = s.clock_pre();
    let n = s.clock_n();
    assert(1 <= pre * n <= 1024) by (nonlinear_arith)
        requires
            1 <= pre <= 16,
            1 <= n <= 64,
    ;
    let total = t.total_bits;
    let cycles = t.bit_cycles;
    assert(0 < total * cycles <= 0x10_0000 * 1024) by (nonlinear_arith)
        requires
            0 < total <= 0x10_0000,
            0 < cycles <= 1024,
    ;
}

/// The end of a transaction clears `CMD.usr` and latches `trans_done`; the start
/// clears the latch.
pub proof fn law_usr_self_clears(s: SpiState, t: TxnState)
    requires
        s.wf(),
        s.txn == Some(t),
    ensures
        s.completed(t).txn is None,
        s.completed(t).reg(SPI_CMD) & CMD_USR == 0,
        s.completed(t).reg(SPI_INT_RAW) & INT_TRANS_DONE == INT_TRANS_DONE,
        s.starting(t).reg(SPI_INT_RAW) & INT_TRANS_DONE == 0,
{
    let cmd = s.reg(SPI_CMD);
    let raw = s.reg(SPI_INT_RAW);
    crate::bits::lemma_masks(cmd, 1u32 << 24, 0);
    crate::bits::lemma_masks(raw, 1u32 << 12, 0);
    crate::bits::lemma_or_sets(raw, INT_TRANS_DONE);
}

/// In slave mode `CMD.usr` starts nothing.
pub proof fn law_slave_does_not_start(s: SpiState, v: u32)
    requires
        s.wf(),
        s.is_slave(),
    ensures
        s.written(SPI_CMD, v).txn == s.txn,
{
}

/// Bytes survive the trip through little-endian words.
proof fn lemma_unpack_packed(bytes: Seq<u8>, n: nat, i: int)
    requires
        0 <= i < bytes.len(),
        i < 4 * n,
    ensures
        unpacked_byte(packed(bytes, n), i) == bytes[i],
{
    let w = i / 4;
    crate::bytes::lemma_lanes_of_le_word(
        byte_or_zero(bytes, 4 * w),
        byte_or_zero(bytes, 4 * w + 1),
        byte_or_zero(bytes, 4 * w + 2),
        byte_or_zero(bytes, 4 * w + 3),
    );
}

/// What a master writes to the slave buffer, a master reads back, up to the size
/// of the buffer.
pub proof fn law_slave_buffer_round_trip(s: SpiState, bytes: Seq<u8>, i: int)
    requires
        s.wf(),
        0 <= i < bytes.len(),
        i < 4 * DATA_WORDS,
    ensures
        unpacked_byte(s.with_data_buf(bytes).data_buf(), i) == bytes[i],
{
    assert(s.with_data_buf(bytes).data_buf() =~= packed(bytes, DATA_WORDS as nat));
    lemma_unpack_packed(bytes, DATA_WORDS as nat, i);
}

/// The pattern device keeps its size.
proof fn lemma_quad_written_len(store: Seq<u8>, addr: u32, bytes: Seq<u8>)
    ensures
        quad_written(store, addr, bytes).len() == store.len(),
    decreases bytes.len(),
{
    if bytes.len() > 0 && store.len() > 0 {
        lemma_quad_written_len(store, addr, bytes.drop_last());
    }
}

/// Two distinct positions of a run no longer than the store stay distinct when
/// the store wraps.
proof fn lemma_wrap_distinct(addr: int, i: int, j: int, n: int)
    requires
        0 <= addr,
        0 <= i < j < n,
    ensures
        (addr + i) % n != (addr + j) % n,
        0 <= (addr + i) % n < n,
        0 <= (addr + j) % n < n,
{
    vstd::arithmetic::div_mod::lemma_fundamental_div_mod(addr + i, n);
    vstd::arithmetic::div_mod::lemma_fundamental_div_mod(addr + j, n);
    let qi = (addr + i) / n;
    let qj = (addr + j) / n;
    if (addr + i) % n == (addr + j) % n {
        assert(n * (qj - qi) == j - i) by (nonlinear_arith)
            requires
                n * qi + (addr + i) % n == addr + i,
                n * qj + (addr + j) % n == addr + j,
                (addr + i) % n == (addr + j) % n,
        ;
        assert(false) by (nonlinear_arith)
            requires
                n * (qj - qi) == j - i,
                0 < j - i < n,
        ;
    }
}

/// What is written to the pattern device is read back from it, for a run of
/// bytes no longer than the store.
pub proof fn law_quad_round_trip(store: Seq<u8>, addr: u32, bytes: Seq<u8>)
    requires
        0 < bytes.len() <= store.len(),
    ensures
        quad_read(quad_written(store, addr, bytes), addr, bytes.len()) == bytes,
    decreases bytes.len(),
{
    let n = store.len() as int;
    let last = bytes.len() - 1;
    let before = quad_written(store, addr, bytes.drop_last());
    let after = quad_written(store, addr, bytes);
    lemma_quad_written_len(store, addr, bytes.drop_last());
    assert forall|i: int| 0 <= i < bytes.len() implies #[trigger] quad_read(
        after,
        addr,
        bytes.len(),
    )[i] == bytes[i] by {
        if i < last {
            lemma_wrap_distinct(addr as int, i, last, n);
            law_quad_round_trip(store, addr, bytes.drop_last());
            assert(quad_read(before, addr, bytes.drop_last().len())[i] == bytes.drop_last()[i]);
        } else {
            vstd::arithmetic::div_mod::lemma_mod_bound(addr + last, n);
        }
    }
    assert(quad_read(after, addr, bytes.len()) =~= bytes);
}

/// Bits of a byte lane are bits of the word.
proof fn lemma_lane_bits(w: u32, j: u32, b: u32)
    requires
        j < 4,
        b < 8,
    ensures
        ((crate::bytes::byte_lane(w, j) >> b) & 1) as u32 == (w >> ((8 * j + b) as u64)) & 1,
{
    assert((((((w >> ((8 * j) as u32)) & 0xFF) as u8) >> b) & 1) as u32 == (w >> ((8 * j + b) as u64))
        & 1) by (bit_vector)
        requires
            j < 4,
            b < 8,
    ;
}

/// The data line carries the transmitted byte stream, each byte's most
/// significant bit first: a sampler on the line sees what `take_last_tx` reports.
pub proof fn law_line_carries_byte_stream(t: TxnState, i: int, k: u8)
    requires
        t.have_mosi,
        0 <= i,
        k < 8,
        8 * i + k < t.data_bits,
    ensures
        t.data_bit(8 * i + k) == ((t.mosi_bytes()[i] >> ((7 - k) as u8)) & 1) as u32,
{
    let bit = 8 * i + k;
    assert(bit / 8 == i && bit % 8 == k);
    let raw = unpacked_byte(t.buf, i);
    crate::bits::lemma_reversed(raw, (7 - k) as u8);
    if i / 4 < t.buf.len() {
        let in_byte: u32 = if t.wr_lsb {
            k as u32
        } else {
            (7 - k) as u32
        };
        lemma_lane_bits(t.buf[i / 4], (i % 4) as u32, in_byte);
    }
}

} // verus!
