//! What the serial ports are for: bytes in and out in order, with the programmed
//! thresholds, flow control and timing. Registers are named by their word in the block
//! and taken apart in arithmetic.

use crate::spi::{SpiState, TxnState};
use crate::timer_laws::has_bit;
use crate::uart::UartState;
use vstd::prelude::*;

verus! {

/// A threshold field; 0 counts as 1.
pub open spec fn threshold(v: u32) -> int {
    if v == 0 {
        1
    } else {
        v as int
    }
}

/// A received byte goes behind those that wait, if fewer than 128 do, and the receive
/// interrupt (bit 0) is raised exactly when the programmed number of bytes waits; a
/// byte too many is lost.
pub proof fn law_received_byte(s: UartState, byte: u8)
    requires
        s.wf(),
    ensures
        ({
            let t = s.received(byte);
            &&& s.rx.len() < 128 ==> t.rx == s.rx.push(byte) && t.tout_idle == 0
            &&& s.rx.len() >= 128 ==> t.rx == s.rx && t.regs == s.regs
            &&& s.rx.len() < 128 && s.rx.len() + 1 >= threshold(s.regs[9] % 0x400) ==> t.regs[1]
                == s.regs[1] | 1
            &&& s.rx.len() + 1 < threshold(s.regs[9] % 0x400) ==> t.regs[1] == s.regs[1]
            &&& t.rx_edge
            &&& t.tx_out == s.tx_out && t.tx_hold == s.tx_hold
        }),
{
    crate::bits::lemma_fields(s.regs[9]);
    crate::bits::lemma_constants();
}

/// Reading the FIFO takes the oldest byte; once none waits the receive interrupt is gone.
pub proof fn law_read_byte(s: UartState)
    requires
        s.wf(),
        s.rx.len() > 0,
    ensures
        s.read(0) == s.rx[0],
        s.after_read(0).rx == s.rx.skip(1),
        s.rx.len() == 1 ==> s.after_read(0).regs[1] == s.regs[1] & !1u32,
        s.rx.len() > 1 ==> s.after_read(0).regs[1] == s.regs[1],
{
    crate::bits::lemma_constants();
}

/// A byte written to the FIFO is sent at once, unless a break is sent (then it is lost)
/// or flow control is on and the other side is not ready (then it waits, up to 128).
pub proof fn law_written_byte(s: UartState, v: u32)
    requires
        s.wf(),
        !has_bit(s.regs[8], 14),
        s.regs[19] & 9 != 9,
    ensures
        ({
            let t = s.written(0, v);
            let stopped = has_bit(s.regs[8], 15) && s.cts != 0;
            &&& has_bit(s.regs[8], 8) ==> t == s
            &&& !has_bit(s.regs[8], 8) && !stopped ==> t.tx_out == s.tx_out.push(v as u8) && t.tx_hold
                == s.tx_hold
            &&& !has_bit(s.regs[8], 8) && stopped && s.tx_hold.len() < 128 ==> t.tx_hold
                == s.tx_hold.push(v as u8) && t.tx_out == s.tx_out
            &&& t.rx == s.rx
        }),
{
    crate::bits::lemma_bit_differs(s.regs[8], 0, 14);
    crate::bits::lemma_bit_differs(s.regs[8], 0, 15);
    crate::bits::lemma_bit_differs(s.regs[8], 0, 8);
}

/// In loopback, and in RS485 echo, what is sent is also received.
pub proof fn law_sent_byte_comes_back(s: UartState, v: u32)
    requires
        s.wf(),
        !has_bit(s.regs[8], 8),
        !has_bit(s.regs[8], 15),
        s.rx.len() < 128,
        has_bit(s.regs[8], 14) != (s.regs[19] & 9 == 9),
    ensures
        s.written(0, v).rx == s.rx.push(v as u8),
        s.written(0, v).tx_out == s.tx_out.push(v as u8),
{
    crate::bits::lemma_bit_differs(s.regs[8], 0, 14);
    crate::bits::lemma_bit_differs(s.regs[8], 0, 15);
    crate::bits::lemma_bit_differs(s.regs[8], 0, 8);
}

/// The request-to-send line is low exactly while receive flow control is on and fewer
/// bytes wait than its threshold.
pub proof fn law_request_to_send(s: UartState)
    requires
        s.wf(),
    ensures
        s.rts_level() == if has_bit(s.regs[8], 22) && s.rx.len() < threshold(
            (s.regs[24] / 0x80) % 0x400,
        ) {
            0u32
        } else {
            1u32
        },
{
    crate::bits::lemma_bit_differs(s.regs[8], 0, 22);
    crate::bits::lemma_fields(s.regs[24]);
}

/// The receive timeout: with bytes waiting and the timeout on, its interrupt (bit 8) is
/// raised once the line has been idle for the programmed number of bit times (694 cycles
/// each where no divider is programmed), and the idle time starts anew; before that
/// only the idle time grows.
pub proof fn law_receive_timeout_time(s: UartState, cycles: u64)
    requires
        s.wf(),
        s.tx_hold.len() == 0,
        s.rx.len() > 0,
        has_bit(s.regs[9], 23),
        s.tout_idle + cycles <= u64::MAX,
    ensures
        ({
            let bit = if s.regs[5] % 0x1000 == 0 {
                694
            } else {
                s.regs[5] as int % 0x1000
            };
            let limit = threshold((s.regs[24] / 0x2_0000) % 0x400) * bit;
            let t = s.ticked(cycles);
            &&& s.tout_idle + cycles >= limit ==> t.regs[1] == s.regs[1] | 0x100 && t.tout_idle == 0
            &&& s.tout_idle + cycles < limit ==> t.regs[1] == s.regs[1] && t.tout_idle == s.tout_idle
                + cycles
            &&& t.rx == s.rx
        }),
{
    crate::bits::lemma_bit_differs(s.regs[9], 0, 23);
    crate::bits::lemma_fields(s.regs[5]);
    crate::bits::lemma_fields(s.regs[24]);
    crate::bits::lemma_constants();
}

/// The transmitter-empty interrupt (bit 1) shows while its threshold is set and nothing
/// waits to be sent; the status register shows the enabled interrupts.
pub proof fn law_interrupt_status(s: UartState)
    requires
        s.wf(),
    ensures
        s.read(8) == s.read(4) & s.regs[3],
        s.read(4) == if (s.regs[9] / 0x400) % 0x400 != 0 && s.tx_hold.len() == 0 {
            s.regs[1] | 2
        } else {
            s.regs[1]
        },
{
    crate::bits::lemma_fields(s.regs[9]);
    crate::bits::lemma_constants();
}

/// Clocks of the phases that the registers of an SPI controller describe: a command, an
/// address and a wait, each if enabled and as long as its field says plus one, and the
/// data, if any direction is enabled.
pub open spec fn phase_clocks(s: SpiState) -> int {
    (if has_bit(s.regs[4], 31) {
        s.regs[6] as int / 0x1000_0000 + 1
    } else {
        0
    }) + (if has_bit(s.regs[4], 30) {
        s.regs[5] as int / 0x800_0000 + 1
    } else {
        0
    }) + (if has_bit(s.regs[4], 29) {
        s.regs[5] as int % 0x100 + 1
    } else {
        0
    })
}

/// Bits of the data phase.
pub open spec fn payload_bits(s: SpiState) -> int {
    if has_bit(s.regs[4], 27) || has_bit(s.regs[4], 28) {
        s.regs[7] as int % 0x4_0000 + 1
    } else {
        0
    }
}

/// Bus cycles per SPI clock.
pub open spec fn clock_cycles(s: SpiState) -> int {
    if has_bit(s.regs[3], 31) {
        1
    } else {
        ((s.regs[3] as int / 0x4_0000) % 0x10 + 1) * ((s.regs[3] as int / 0x1000) % 0x40 + 1)
    }
}

proof fn lemma_spi_fields(s: SpiState)
    requires
        s.wf(),
    ensures
        s.cmd_bits() + s.addr_bits() + s.dummy_bits() == phase_clocks(s),
        s.data_bits() == payload_bits(s),
        s.bit_cycles() == clock_cycles(s),
        s.have_mosi() == has_bit(s.regs[4], 27),
        s.have_miso() == has_bit(s.regs[4], 28),
        s.doutdin() == has_bit(s.regs[4], 0),
        1 <= clock_cycles(s) <= 1024,
{
    let user = s.regs[4];
    crate::bits::lemma_bit_differs(user, 0, 31);
    crate::bits::lemma_bit_differs(user, 0, 30);
    crate::bits::lemma_bit_differs(user, 0, 29);
    crate::bits::lemma_bit_differs(user, 0, 28);
    crate::bits::lemma_bit_differs(user, 0, 27);
    crate::bits::lemma_bit_differs(user, 0, 0);
    crate::bits::lemma_bit_differs(s.regs[3], 0, 31);
    crate::bits::lemma_constants();
    crate::bits::lemma_fields(s.regs[3]);
    crate::bits::lemma_fields(s.regs[5]);
    crate::bits::lemma_fields(s.regs[6]);
    crate::bits::lemma_fields(s.regs[7]);
    let pre = (s.regs[3] as int / 0x4_0000) % 0x10 + 1;
    let n = (s.regs[3] as int / 0x1000) % 0x40 + 1;
    assert(1 <= pre * n <= 1024) by (nonlinear_arith)
        requires
            1 <= pre <= 16,
            1 <= n <= 64,
    ;
}

/// A transfer that is started takes the clocks of its phases, each as long as the clock
/// register says: the data once, or twice where both directions take turns. It reads its
/// output from the data buffer as it stands.
pub proof fn law_transfer_time(s: SpiState, v: u32)
    requires
        s.wf(),
        s.txn is None,
        !s.is_slave(),
        has_bit(v, 24),
        phase_clocks(s) + payload_bits(s) > 0,
    ensures
        ({
            let t = s.written(0, v).txn;
            let turns = has_bit(s.regs[4], 27) && has_bit(s.regs[4], 28) && !has_bit(s.regs[4], 0);
            let clocks = phase_clocks(s) + (if turns {
                2 * payload_bits(s)
            } else {
                payload_bits(s)
            });
            &&& t is Some
            &&& t->0.remain == clocks * clock_cycles(s)
            &&& t->0.data_bits == payload_bits(s)
            &&& t->0.buf == s.regs.subrange(38, 54)
            &&& !t->0.dma
        }),
{
    let w = if v & crate::spi::CMD_UPDATE != 0 {
        v & !crate::spi::CMD_UPDATE
    } else {
        v
    };
    crate::bits::lemma_fields(v);
    crate::bits::lemma_bit_differs(v, 0, 24);
    let s1 = s.with_reg(0, w);
    assert(s1.wf());
    assert(forall|k: int| 1 <= k < 61 ==> s1.regs[k] == s.regs[k]);
    lemma_spi_fields(s1);
    assert(phase_clocks(s1) == phase_clocks(s) && payload_bits(s1) == payload_bits(s)
        && clock_cycles(s1) == clock_cycles(s));
    assert(s1.data_buf() =~= s.regs.subrange(38, 54));
    let t = s1.triggered().txn->0;
    let clocks = t.total_bits as int;
    assert(clocks * clock_cycles(s) <= 0x10_0000 * 1024) by (nonlinear_arith)
        requires
            0 <= clocks <= 0x10_0000,
            1 <= clock_cycles(s) <= 1024,
    ;
}

/// A finished transfer without DMA: its output is what the data buffer held at the start,
/// lowest byte of the first word first, as many bytes as the data bits fill; injected
/// input bytes, where no card answers, fill the buffer in the same order with zeros
/// behind, and are used up. The controller is free again.
pub proof fn law_transfer_moves_buffer(s: SpiState, t: TxnState, i: int)
    requires
        s.wf(),
        t.wf(),
        !t.dma,
        !t.wr_lsb,
        !t.rd_lsb,
        t.buf.len() == 16,
        0 <= i < 64,
    ensures
        ({
            let u = s.completed(t);
            let n = (t.data_bits as int + 7) / 8;
            &&& u.txn is None
            &&& t.have_mosi && i < n ==> u.last_tx->0.len() == n && u.last_tx->0[i]
                == crate::bytes::byte_lane(t.buf[i / 4], (i % 4) as u32)
            &&& !t.have_mosi ==> u.last_tx->0.len() == 0
            &&& t.have_miso && !s.sdspi.attached && s.pending_miso is Some ==> {
                &&& u.pending_miso is None
                &&& crate::bytes::byte_lane(u.regs[38 + i / 4], (i % 4) as u32) == if i
                    < s.pending_miso->0.len() {
                    s.pending_miso->0[i]
                } else {
                    0
                }
            }
            &&& !t.have_miso ==> forall|k: int| 38 <= k < 54 ==> #[trigger] u.regs[k] == s.regs[k]
        }),
{
    if t.have_miso && !s.sdspi.attached && s.pending_miso is Some {
        let b = s.pending_miso->0;
        assert(s.card_clocked(t).len() == 0);
        assert(s.card_before_answer(t).miso_all(s.card_clocked(t)).len() == 0);
        assert(s.input_bytes(t) == b);
        let put = Seq::new(b.len(), |k: int| crate::spi::ordered(b[k], t.rd_lsb));
        assert(put =~= b);
        let w = i / 4;
        crate::bytes::lemma_lanes_of_le_word(
            crate::spi::byte_or_zero(b, 4 * w),
            crate::spi::byte_or_zero(b, 4 * w + 1),
            crate::spi::byte_or_zero(b, 4 * w + 2),
            crate::spi::byte_or_zero(b, 4 * w + 3),
        );
    }
}

/// The lines of a controller: at rest both selects are high; during a transfer a select
/// that is not disabled is low, and the data line carries the transfer's current bit. The
/// first controller drives signals 101, 103, 110 and 111, the second 66, 68, 71 and 72.
pub proof fn law_select_lines(s: SpiState)
    requires
        s.wf(),
    ensures
        ({
            let (d, c0, c1) = if s.idx == 0 {
                (103u32, 110u32, 111u32)
            } else {
                (68u32, 71u32, 72u32)
            };
            &&& s.txn is None ==> s.signal_level(c0) == 1 && s.signal_level(c1) == 1
            &&& s.txn matches Some(t) ==> {
                &&& s.signal_level(c0) == if has_bit(s.regs[8], 0) { 1u32 } else { 0u32 }
                &&& s.signal_level(d) == t.mosi_level(t.elapsed())
            }
        }),
{
    crate::bits::lemma_bit_differs(s.regs[8], 0, 0);
    crate::bits::lemma_constants();
    if s.txn is Some {
        let t = s.txn->0;
        assert(t.elapsed() < t.total_bits * t.bit_cycles);
    }
}

} // verus!
