//! What holds of the bus as a whole.

use super::{Device, SocState};
use crate::memmap::{CACHED_IOBLOCK_BASE, DRAM_BASE, DRAM_SIZE, SPI2_BASE, SYSTEM_BASE};
use crate::memory::Place;
use vstd::prelude::*;

verus! {

broadcast use crate::soc::sizes::lemma_sized;

/// A word of data memory reads back what was written, through its own address
/// and through the I/O-block alias. A word that touches a console hook cell is
/// left out: stores there are dropped.
pub proof fn law_bus_round_trip(s: SocState, a: u32, v: u32)
    requires
        s.wf(),
        DRAM_BASE <= a <= DRAM_BASE + DRAM_SIZE - 4,
        forall|k: int| 0 <= k < 4 ==> !crate::memory::hook_cell(#[trigger] ((a + k) as u32)),
    ensures
        s.write32(a, v).read32(a) == v,
        s.write32(a, v).read32((CACHED_IOBLOCK_BASE + (a - DRAM_BASE)) as u32) == v,
        s.write32((CACHED_IOBLOCK_BASE + (a - DRAM_BASE)) as u32, v).read32(a) == v,
{
    reveal(SocState::wf);
    reveal(SocState::read32);
    reveal(SocState::write32);
    let alias = (CACHED_IOBLOCK_BASE + (a - DRAM_BASE)) as u32;
    assert(crate::memory::remapped(alias) == a);
    assert(crate::memory::remapped(a) == a);
    assert forall|k: u32| k < 4 implies #[trigger] crate::memory::writable(a.wrapping_add(k))
        && !crate::memory::hook_cell(a.wrapping_add(k)) by {
        assert(a.wrapping_add(k) == (a + k as int) as u32);
    }
    crate::memory::law_word_round_trip(s.mem, a, v);
}

/// A compare-and-swap of an aligned word of data memory replaces it if and only
/// if it was the one expected, and always tells what it found; no byte of memory
/// besides, and no other state, changes.
pub proof fn law_compare_and_swap(s: SocState, a: u32, compare: u32, val: u32)
    requires
        s.wf(),
        DRAM_BASE <= a <= DRAM_BASE + DRAM_SIZE - 4,
        a % 4 == 0,
    ensures
        s.cas32(a) == s.mem.word(a),
        s.after_cas32(a, compare, val).mem.word(a) == if s.cas32(a) == compare {
            val
        } else {
            s.cas32(a)
        },
        s.after_cas32(a, compare, val) == (SocState {
            mem: s.after_cas32(a, compare, val).mem,
            ..s
        }),
        forall|b: u32|
            (forall|k: u32|
                #![trigger a.wrapping_add(k)]
                k < 4 ==> crate::memory::place(b) != crate::memory::place(a.wrapping_add(k)))
                ==> #[trigger] s.after_cas32(a, compare, val).mem.byte(b) == s.mem.byte(b),
        s.cas32(a) != compare ==> s.after_cas32(a, compare, val) == s,
{
    reveal(SocState::wf);
    assert(crate::memory::remapped(a) == a);
    assert(SocState::swaps_in_ram(a));
    assert forall|k: u32| k < 4 implies #[trigger] crate::memory::writable(a.wrapping_add(k)) by {
        assert(a.wrapping_add(k) == (a + k as int) as u32);
    }
    crate::memory::lemma_poke_round_trip(s.mem, a, val);
    assert forall|b: u32|
        (forall|k: u32|
            #![trigger a.wrapping_add(k)]
            k < 4 ==> crate::memory::place(b) != crate::memory::place(
                a.wrapping_add(k),
            )) implies #[trigger] s.after_cas32(a, compare, val).mem.byte(b) == s.mem.byte(b) by {
        crate::memory::lemma_poke_keeps_others(s.mem, a, val, b);
    }
}

/// Peripheral space that nothing answers reads as 0, and neither a read nor a
/// write there changes any block.
pub proof fn law_unanswered_space(s: SocState, a: u32, v: u32)
    requires
        crate::memory::place(a) == Place::Apb,
        crate::memory::remapped(a) == a,
        crate::soc::device(crate::soc::page_of(a), crate::soc::offset_of(a)).0 == Device::Unmodeled,
    ensures
        s.read32(a) == 0,
        s.after_read32(a) == s,
        s.write32(a, v) == (SocState { rb_valid: false, src_valid: false, ..s }),
{
    reveal(SocState::read32);
    reveal(SocState::after_read32);
    reveal(SocState::write32);
}

/// Without its clock an SPI controller starts no transfer, whatever is written to
/// its command register.
pub proof fn law_gated_spi_stays_idle(s: SocState, v: u32)
    requires
        s.wf(),
        !s.clk_on(false, 6),
        s.spi2.txn is None,
    ensures
        s.write32(SPI2_BASE, v).spi2.txn is None,
{
    reveal(SocState::wf);
    reveal(SocState::write32);
    let w = v & !crate::soc::SPI_CMD_USR;
    let u = crate::spi::CMD_UPDATE;
    assert(w & (1u32 << 24) == 0 && (w & !u) & (1u32 << 24) == 0) by (bit_vector)
        requires
            w == v & !0x0100_0000u32,
    ;
    assert(crate::soc::device(crate::soc::page_of(SPI2_BASE), crate::soc::offset_of(SPI2_BASE))
        == (Device::Spi2, 0u32));
}

/// A cross-core request raises its source for the core that it is for, and only
/// there; taking it back lowers it.
pub proof fn law_cross_core_request(s: SocState, core: int, v: u32)
    requires
        s.wf(),
        0 <= core < 2,
    ensures
        s.write32((SYSTEM_BASE + 0x30 + 4 * core) as u32, v).cpu_sources(core)
            == s.sources() | crate::soc::irq::source(v & 1 != 0, (79 + core) as u32) | crate::soc::irq::source(
            s.from_cpu[2 + core] & 1 != 0,
            (81 + core) as u32,
        ),
        s.write32((SYSTEM_BASE + 0x30 + 4 * core) as u32, v).cpu_sources(1 - core)
            == (SocState { src_valid: false, ..s }).cpu_sources(1 - core),
{
    lemma_request_stored(s, core, v);
    lemma_from_cpu_len(s);
    crate::bits::lemma_masks(v, 1, 0);
}

proof fn lemma_from_cpu_len(s: SocState)
    requires
        s.wf(),
    ensures
        s.from_cpu.len() == 4,
{
    reveal(SocState::wf);
}

proof fn lemma_request_stored(s: SocState, core: int, v: u32)
    requires
        0 <= core < 2,
    ensures
        s.write32((SYSTEM_BASE + 0x30 + 4 * core) as u32, v) == (SocState {
            from_cpu: s.from_cpu.update(core, v & 1),
            rb_valid: false,
            src_valid: false,
            ..s
        }),
{
    let a = (SYSTEM_BASE + 0x30 + 4 * core) as u32;
    assert(crate::soc::device(crate::soc::page_of(a), crate::soc::offset_of(a)).0
        == Device::FromCpu(core as u32));
    reveal(SocState::write32);
}

/// Bit `i` of the readback is the level driven on the pad where it drives, else
/// the level applied to it.
pub proof fn law_readback_shows_pads(s: SocState, i: u32)
    requires
        i < 32,
    ensures
        (s.pad_word() >> i) & 1 == if s.pads.enabled(i as int) {
            if s.pad_driven(i as int) != 0 {
                1u32
            } else {
                0u32
            }
        } else {
            (s.pads.raw_in >> i) & 1
        },
{
    lemma_readback(s, i, 32);
}

proof fn lemma_readback(s: SocState, i: u32, n: nat)
    requires
        i < 32,
        n <= 32,
    ensures
        (s.readback_upto(n) >> i) & 1 == if i < n && s.pads.enabled(i as int) {
            if s.pad_driven(i as int) != 0 {
                1u32
            } else {
                0u32
            }
        } else {
            (s.pads.raw_in >> i) & 1
        },
    decreases n,
{
    if n > 0 {
        lemma_readback(s, i, (n - 1) as nat);
        let v = s.readback_upto((n - 1) as nat);
        let k = (n - 1) as u32;
        crate::bits::lemma_set_bit(v, k, i);
        assert(((v & !(1u32 << k)) >> i) & 1 == if i == k {
            0u32
        } else {
            (v >> i) & 1
        }) by (bit_vector)
            requires
                i < 32,
                k < 32,
        ;
    }
}

/// The readback holds until the next tick or register write: reading it again
/// gives the same word, whatever the pads do meanwhile.
pub proof fn law_readback_holds(s: SocState, t: SocState)
    requires
        t.cached_rb == s.after_readback().cached_rb,
        t.rb_valid == s.after_readback().rb_valid,
    ensures
        t.readback() == s.readback(),
{
}

} // verus!
