//! How the parts of the chip are wired: which address reaches which memory or block, and
//! what travels between the blocks.

use super::SocState;
use crate::memory::{MemState, Place};
use crate::spi::SpiState;
use crate::timer_laws::has_bit;
use crate::twai::TwaiState;
use crate::uhci::UhciState;
use vstd::prelude::*;

verus! {

/// Where the memories lie: data SRAM, instruction SRAM and its window on the data SRAM,
/// ROM, the two flash windows, and the RTC memories.
pub proof fn law_address_map(k: u32)
    ensures
        k < 0x8_0000 && !(0x7_D710 <= k < 0x7_DA10) ==> crate::memory::place(
            (0x3FC8_0000 + k) as u32,
        ) == Place::Sram(k),
        k < 0x8000 ==> crate::memory::place((0x4037_0000 + k) as u32) == Place::Iram0(k),
        k < 0x6_8000 ==> crate::memory::place((0x4037_8000 + k) as u32) == Place::Sram(
            (0x8000 + k) as u32,
        ),
        k < 0x6_0000 ==> crate::memory::place((0x4000_0000 + k) as u32) == Place::Irom(k),
        k < 0x2000 ==> crate::memory::place((0x5000_0000 + k) as u32) == Place::RtcSlow(k),
        k < 0x2000 ==> crate::memory::place((0x600F_E000 + k) as u32) == Place::RtcFast(k),
        k < 0x2_0000 ==> crate::memory::place((0x3FF0_0000 + k) as u32) == Place::RomData(k),
        k < 0xF_E000 ==> crate::memory::place((0x6000_0000 + k) as u32) == Place::Apb,
        k < 0x8_0000 ==> crate::memory::remapped((0x7000_0000 + k) as u32) == 0x3FC8_0000 + k,
        k < 0x8_0000 ==> crate::memory::remapped((0x9000_0000 + k) as u32) == 0x3FC8_0000 + k,
{
}

/// The flash windows show pages through the page table: a valid entry names a 64 KiB page
/// of the flash or, with bit 15, of the external RAM; an invalid one (bit 14) shows the
/// flash page of its own number.
pub proof fn law_windows_show_mapped_pages(m: MemState, off: u32, page: u32)
    requires
        m.wf(),
        !m.rom_boot,
        off < 0x0200_0000,
        page < 0x4000,
    ensures
        ({
            let e = m.mmu[off as int / 0x1_0000];
            let o = page * 0x1_0000 + off % 0x1_0000;
            let shown = m.window_byte(off);
            &&& e == page ==> shown == if o < 0x40_0000 {
                m.flash_view()[o]
            } else {
                0
            }
            &&& e == 0x8000 + page ==> shown == if o < 0x80_0000 {
                m.psram[o]
            } else {
                0
            }
            &&& (e / 0x4000) % 2 == 1 ==> shown == if off < 0x40_0000 {
                m.flash_view()[off as int]
            } else {
                0
            }
        }),
{
    let e = m.mmu[off as int / 0x1_0000];
    crate::bits::lemma_fields(e);
}

/// An address of the peripheral space, taken apart.
proof fn lemma_register_address(page: u32, off: u32)
    requires
        0x6000_0000 <= page < 0x600F_E000,
        page % 0x1000 == 0,
        off < 0x1000,
        off % 4 == 0,
    ensures
        ({
            let a = (page + off) as u32;
            &&& crate::memory::place(a) == Place::Apb
            &&& crate::memory::remapped(a) == a
            &&& crate::soc::page_of(a) == page
            &&& crate::soc::offset_of(a) == off
        }),
{
    let a = (page + off) as u32;
    assert(a % 0x1000 == off);
    assert(a % 4 == 0);
}

/// An access at a page and offset of the peripheral space.
proof fn lemma_register(s: SocState, page: u32, off: u32, v: u32)
    requires
        0x6000_0000 <= page < 0x600F_E000,
        page % 0x1000 == 0,
        off < 0x1000,
        off % 4 == 0,
    ensures
        ({
            let a = (page + off) as u32;
            &&& s.write32(a, v) == s.mmio_written(a, v)
            &&& s.read32(a) == s.mmio_read(a)
            &&& crate::soc::page_of(a) == page && crate::soc::offset_of(a) == off
        }),
{
    lemma_register_address(page, off);
    let a = (page + off) as u32;
    lemma_bus_access(s, a, v);
}

proof fn lemma_bus_access(s: SocState, a: u32, v: u32)
    requires
        crate::memory::place(a) == Place::Apb,
        crate::memory::remapped(a) == a,
    ensures
        s.write32(a, v) == s.mmio_written(a, v),
        s.read32(a) == s.mmio_read(a),
{
    reveal(SocState::write32);
    reveal(SocState::read32);
}

/// A word written to a register goes to its block alone, and is read from there: the
/// three UARTs, the two timer groups, the system timer and the USB serial port.
pub proof fn law_registers_reach_their_block(s: SocState, off: u32, v: u32)
    requires
        off < 0x1000,
        off % 4 == 0,
    ensures
        ({
            let q = SocState { rb_valid: false, src_valid: false, ..s };
            let (u0, u1, u2) = (
                (0x6000_0000 + off) as u32,
                (0x6001_0000 + off) as u32,
                (0x6002_E000 + off) as u32,
            );
            let (t0, t1, st, us) = (
                (0x6001_F000 + off) as u32,
                (0x6002_0000 + off) as u32,
                (0x6002_3000 + off) as u32,
                (0x6003_8000 + off) as u32,
            );
            &&& s.write32(u0, v) == (SocState { uart0: s.uart0.written(off, v), ..q })
            &&& s.write32(u1, v) == (SocState { uart1: s.uart1.written(off, v), ..q })
            &&& s.write32(u2, v) == (SocState { uart2: s.uart2.written(off, v), ..q })
            &&& s.write32(t0, v) == (SocState { timg0: s.timg0.written(off, v), ..q })
            &&& s.write32(t1, v) == (SocState { timg1: s.timg1.written(off, v), ..q })
            &&& s.write32(st, v) == (SocState { systimer: s.systimer.written(off, v), ..q })
            &&& s.write32(us, v) == (SocState { usb: s.usb.written(off, v), ..q })
            &&& s.read32(u0) == s.uart0.read(off)
            &&& s.read32(u1) == s.uart1.read(off)
            &&& s.read32(u2) == s.uart2.read(off)
            &&& s.read32(t0) == s.timg0.read(off)
            &&& s.read32(t1) == s.timg1.read(off)
            &&& s.read32(st) == s.systimer.read(off)
            &&& s.read32(us) == s.usb.read(off)
        }),
{
    lemma_register(s, 0x6000_0000, off, v);
    lemma_register(s, 0x6001_0000, off, v);
    lemma_register(s, 0x6002_E000, off, v);
    lemma_register(s, 0x6001_F000, off, v);
    lemma_register(s, 0x6002_0000, off, v);
    lemma_register(s, 0x6002_3000, off, v);
    lemma_register(s, 0x6003_8000, off, v);
}

/// The same for the buses: with its clock on (bits 6, 16 and 19 of the first clock word)
/// each takes every word as it is. The clock words hold what is written to them.
pub proof fn law_registers_reach_their_bus(s: SocState, off: u32, v: u32)
    requires
        off < 0x400,
        off % 4 == 0,
        has_bit(s.clk_en0, 6),
        has_bit(s.clk_en0, 16),
        has_bit(s.clk_en0, 19),
    ensures
        ({
            let q = SocState { rb_valid: false, src_valid: false, ..s };
            let t2 = s.write32((0x6002_4000 + off) as u32, v);
            &&& t2 == (SocState {
                spi2: SpiState {
                    sdspi_cs_low: t2.spi2.sdspi_cs_low,
                    ..s.spi2.written(off, v)
                },
                ..q
            })
            &&& t2.spi2.sdspi_cs_low == ((s.pads.enable >> 10u64) & 1 == 1 && (s.pads.out >> 10u64) & 1
                == 0)
            &&& s.write32((0x6002_5000 + off) as u32, v) == (SocState {
                spi3: s.spi3.written(off, v),
                ..q
            })
            &&& s.write32((0x6000_C000 + off) as u32, v) == (SocState {
                twai: s.twai.written(off, v),
                ..q
            })
            &&& s.read32((0x6002_4000 + off) as u32) == s.spi2.read(off)
            &&& s.read32((0x6002_5000 + off) as u32) == s.spi3.read(off)
            &&& s.read32((0x6000_C000 + off) as u32) == s.twai.read(off)
            &&& s.write32(0x600C_0018, v).clk_en0 == v
            &&& s.write32(0x600C_001C, v).clk_en1 == v
        }),
{
    lemma_register(s, 0x6002_4000, off, v);
    lemma_register(s, 0x6002_5000, off, v);
    lemma_register(s, 0x6000_C000, off, v);
    lemma_register(s, 0x600C_0000, 0x18, v);
    lemma_register(s, 0x600C_0000, 0x1C, v);
    crate::bits::lemma_bit_differs(s.clk_en0, 0, 6);
    crate::bits::lemma_bit_differs(s.clk_en0, 0, 16);
    crate::bits::lemma_bit_differs(s.clk_en0, 0, 19);
    crate::bits::lemma_wide(0, 0, s.pads.out >> 10u64);
}

/// A frame of another node: in operating mode a frame whose first four bytes agree with
/// the code where the mask has ones is received whole and raises the receive interrupt,
/// and the overrun where one still waits; any other is not heard.
pub proof fn law_frame_is_heard(s: TwaiState, frame: Seq<u8>)
    requires
        s.wf(),
        frame.len() == 13,
    ensures
        ({
            let passes = frame[0] & s.amr[0] == s.acr[0] & s.amr[0] && frame[1] & s.amr[1] == s.acr[1]
                & s.amr[1] && frame[2] & s.amr[2] == s.acr[2] & s.amr[2] && frame[3] & s.amr[3]
                == s.acr[3] & s.amr[3];
            let t = s.heard(frame);
            &&& has_bit(s.mode, 0) || !passes ==> t == s
            &&& !has_bit(s.mode, 0) && passes ==> {
                &&& t.buf == frame
                &&& t.rx_full
                &&& !s.rx_full ==> t.ir == s.ir | 1
                &&& s.rx_full ==> t.ir == (s.ir | 8) | 1
                &&& t.acr == s.acr && t.amr == s.amr
            }
        }),
{
    crate::bits::lemma_bit_differs(s.mode, 0, 0);
    crate::bits::lemma_constants();
    let h = TwaiState { buf: frame, ..s };
    assert(h.amr == s.amr && h.acr == s.acr);
    if h.accepts() {
        assert(h.buf[0] & h.amr[0] == h.acr[0] & h.amr[0]);
        assert(h.buf[1] & h.amr[1] == h.acr[1] & h.amr[1]);
        assert(h.buf[2] & h.amr[2] == h.acr[2] & h.amr[2]);
        assert(h.buf[3] & h.amr[3] == h.acr[3] & h.amr[3]);
    }
}

/// The frame buffer and the filter share their registers: in operating mode byte `i` of
/// the frame is written and read there, in reset mode the code and then the mask.
pub proof fn law_frame_and_filter_registers(s: TwaiState, i: int, v: u32)
    requires
        s.wf(),
        0 <= i < 13,
    ensures
        ({
            let off = (0x40 + 4 * i) as u32;
            let t = s.written(off, v);
            &&& !has_bit(s.mode, 0) ==> t == (TwaiState {
                buf: s.buf.update(i, (v & 0xFF) as u8),
                ..s
            }) && t.read(off) == (v & 0xFF) as u8
            &&& has_bit(s.mode, 0) && i < 4 ==> t == (TwaiState {
                acr: s.acr.update(i, (v & 0xFF) as u8),
                ..s
            })
            &&& has_bit(s.mode, 0) && 4 <= i < 8 ==> t == (TwaiState {
                amr: s.amr.update(i - 4, (v & 0xFF) as u8),
                ..s
            })
            &&& has_bit(s.mode, 0) && 8 <= i ==> t == s
        }),
{
    crate::bits::lemma_bit_differs(s.mode, 0, 0);
    crate::bits::lemma_constants();
}

/// A transmit request in operating mode is done at once and raises the transmit interrupt
/// (bit 1); the frame comes back where self-reception is asked for or the self-test mode
/// is on, and the filter passes it, and not otherwise.
pub proof fn law_frame_is_sent(s: TwaiState, again: bool)
    requires
        s.wf(),
        !has_bit(s.mode, 0),
        !s.rx_full,
    ensures
        ({
            let t = s.written(4, if again { 16u32 } else { 1u32 });
            let back = (again || has_bit(s.mode, 2)) && s.accepts();
            &&& t.rx_full == back
            &&& t.ir == if back {
                (s.ir | 2) | 1
            } else {
                s.ir | 2
            }
            &&& t.buf == s.buf
        }),
{
    crate::bits::lemma_bit_differs(s.mode, 0, 0);
    crate::bits::lemma_bit_differs(s.mode, 0, 2);
    crate::bits::lemma_constants();
}

/// SLIP framing: a packet is its bytes between two separators; with the usual characters
/// a separator 0xC0 inside is sent as 0xDB 0xDC and an escape 0xDB as 0xDB 0xDD, every
/// other byte as it is.
pub proof fn law_packet_is_framed(s: UhciState, b: u8)
    requires
        s.esc_conf == 0xDC_DBC0,
        s.framing(),
    ensures
        s.encoded(seq![b]) == if b == 0xC0 {
            seq![0xC0u8, 0xDB, 0xDC, 0xC0]
        } else if b == 0xDB {
            seq![0xC0u8, 0xDB, 0xDD, 0xC0]
        } else {
            seq![0xC0u8, b, 0xC0]
        },
        s.encoded(Seq::empty()) == seq![0xC0u8, 0xC0],
{
    crate::bits::lemma_constants();
    let c = s.chars();
    assert(c.seper == 0xC0 && c.esc0 == 0xDB && c.esc1 == 0xDC);
    assert(seq![b].drop_last() =~= Seq::<u8>::empty());
    assert(c.escaped_all(Seq::<u8>::empty()) =~= Seq::<u8>::empty());
    assert(c.escaped_all(seq![b]) =~= c.escaped(b));
    assert(s.encoded(seq![b]) =~= if b == 0xC0 {
        seq![0xC0u8, 0xDB, 0xDC, 0xC0]
    } else if b == 0xDB {
        seq![0xC0u8, 0xDB, 0xDD, 0xC0]
    } else {
        seq![0xC0u8, b, 0xC0]
    });
    assert(s.encoded(Seq::empty()) =~= seq![0xC0u8, 0xC0]);
}

/// Packets of several bytes: what stands between the separators is sent byte by byte.
pub proof fn law_packet_body_goes_byte_by_byte(s: UhciState, a: Seq<u8>, b: u8)
    requires
        s.framing(),
    ensures
        ({
            let whole = s.encoded(a.push(b));
            let head = s.encoded(a);
            let tail = s.encoded(seq![b]);
            whole == head.drop_last() + tail.skip(1)
        }),
{
    let c = s.chars();
    assert(a.push(b).drop_last() =~= a);
    assert(seq![b].drop_last() =~= Seq::<u8>::empty());
    assert(c.escaped_all(Seq::<u8>::empty()) =~= Seq::<u8>::empty());
    assert(c.escaped_all(seq![b]) =~= c.escaped(b));
    assert(s.encoded(a.push(b)) =~= s.encoded(a).drop_last() + s.encoded(seq![b]).skip(1));
}

} // verus!
