//! The memories on the bus and the address decoder in front of them.
//!
//! Every byte address lies in one memory, in the peripheral space, or
//! nowhere. A halfword or word is the little-endian value of the bytes at
//! consecutive addresses; a byte that lies in no memory reads as 0 and takes
//! no store. The boot ROM takes no store either, and of the pages behind the
//! cache windows only those mapped to PSRAM do.

use crate::bytes::{lane, load_word, word_from_le};
use crate::flashenc::flashenc_blocks;
use crate::memmap::{
    APB_BASE, APB_SIZE, BYPASS_IOBLOCK_BASE, CACHED_IOBLOCK_BASE, CACHE_PAGE_SIZE,
    DIRAM_DATA_BASE, DIRAM_INST_BASE, DRAM_BASE, DRAM_SIZE, FLASH_DATA_BASE, FLASH_INST_BASE,
    FLASH_SIZE, FLASH_WINDOW_SIZE, IRAM_BASE, IRAM_WINDOW_SIZE, IROM_BASE, IROM_SIZE,
    LOADER_SCRATCH_OFF, MMU_ENTRIES, MMU_INVALID, MMU_PAGE_MASK, MMU_PSRAM, PSRAM_SIZE,
    PUTC2_CELL, PUTC2_CELL_ALT, ROM_DATA_BASE, ROM_DATA_SIZE, RTC_FAST_BASE, RTC_FAST_SIZE,
    RTC_SLOW_BASE, RTC_SLOW_SIZE, SRAM0_SIZE, WIFI_ARD_POOL, WIFI_ARD_POOL_SIZE, WINDOW_MASK,
};
use vstd::prelude::*;

verus! {

/// Where a byte address leads, with the byte offset inside that store.
#[derive(Clone, Copy, PartialEq, Eq, Structural)]
pub enum Place {
    /// Host event blocks.
    Pool(u32),
    /// Data-bus SRAM.
    Sram(u32),
    /// Instruction-only SRAM.
    Iram0(u32),
    /// Boot ROM.
    Irom(u32),
    /// Cache window, with the offset inside the window.
    Window(u32),
    RtcSlow(u32),
    RtcFast(u32),
    RomData(u32),
    /// Peripheral registers.
    Apb,
    Nowhere,
}

/// `addr` lies in the `size` bytes from `base` on.
pub open spec fn within(addr: u32, base: u32, size: u32) -> bool {
    base <= addr && addr - base < size
}

/// The two I/O-block windows are aliases of the data-bus SRAM.
pub open spec fn remapped(addr: u32) -> u32 {
    if within(addr, CACHED_IOBLOCK_BASE, DRAM_SIZE) {
        (DRAM_BASE + (addr - CACHED_IOBLOCK_BASE)) as u32
    } else if within(addr, BYPASS_IOBLOCK_BASE, DRAM_SIZE) {
        (DRAM_BASE + (addr - BYPASS_IOBLOCK_BASE)) as u32
    } else {
        addr
    }
}

/// The store behind a byte address. The event blocks come before the SRAM
/// whose address range they cover.
pub open spec fn place(addr: u32) -> Place {
    if within(addr, WIFI_ARD_POOL, WIFI_ARD_POOL_SIZE) {
        Place::Pool((addr - WIFI_ARD_POOL) as u32)
    } else if within(addr, DRAM_BASE, DRAM_SIZE) {
        Place::Sram((addr - DRAM_BASE) as u32)
    } else if within(addr, IRAM_BASE, SRAM0_SIZE) {
        Place::Iram0((addr - IRAM_BASE) as u32)
    } else if within(addr, IRAM_BASE, IRAM_WINDOW_SIZE) {
        Place::Sram((DIRAM_DATA_BASE - DRAM_BASE + (addr - DIRAM_INST_BASE)) as u32)
    } else if within(addr, IROM_BASE, IROM_SIZE) {
        Place::Irom((addr - IROM_BASE) as u32)
    } else if within(addr, FLASH_DATA_BASE, FLASH_WINDOW_SIZE) || within(
        addr,
        FLASH_INST_BASE,
        FLASH_WINDOW_SIZE,
    ) {
        Place::Window(addr & WINDOW_MASK)
    } else if within(addr, RTC_SLOW_BASE, RTC_SLOW_SIZE) {
        Place::RtcSlow((addr - RTC_SLOW_BASE) as u32)
    } else if within(addr, RTC_FAST_BASE, RTC_FAST_SIZE) {
        Place::RtcFast((addr - RTC_FAST_BASE) as u32)
    } else if within(addr, ROM_DATA_BASE, ROM_DATA_SIZE) {
        Place::RomData((addr - ROM_DATA_BASE) as u32)
    } else if within(addr, APB_BASE, APB_SIZE) {
        Place::Apb
    } else {
        Place::Nowhere
    }
}

/// What a cache-window offset is mapped to.
#[derive(Clone, Copy, PartialEq, Eq, Structural)]
pub enum Target {
    Flash(u32),
    Psram(u32),
}

/// Translation of a window offset through the page table. An invalid entry
/// maps its page to the flash page of the same number.
pub open spec fn translated(mmu: Seq<u32>, off: u32) -> Target {
    let e = entry(mmu, (off / CACHE_PAGE_SIZE) as int);
    let inside = off % CACHE_PAGE_SIZE;
    if e & MMU_INVALID != 0 {
        Target::Flash(off)
    } else if e & MMU_PSRAM != 0 {
        Target::Psram(((e & MMU_PAGE_MASK) * CACHE_PAGE_SIZE + inside) as u32)
    } else {
        Target::Flash(((e & MMU_PAGE_MASK) * CACHE_PAGE_SIZE + inside) as u32)
    }
}

/// Page-table entry `i`; an entry past the table is invalid.
pub open spec fn entry(mmu: Seq<u32>, i: int) -> u32 {
    if 0 <= i < mmu.len() {
        mmu[i]
    } else {
        MMU_INVALID
    }
}

/// Byte `i` of a store; 0 past its end.
pub open spec fn at(store: Seq<u8>, i: int) -> u8 {
    if 0 <= i < store.len() {
        store[i]
    } else {
        0
    }
}

/// The store with byte `i` replaced; unchanged where there is no such byte.
pub open spec fn put(store: Seq<u8>, i: int, v: u8) -> Seq<u8> {
    if 0 <= i < store.len() {
        store.update(i, v)
    } else {
        store
    }
}

/// Contents of all the memories.
#[verifier::ext_equal]
pub struct MemState {
    pub sram: Seq<u8>,
    pub iram0: Seq<u8>,
    pub irom: Seq<u8>,
    pub flash: Seq<u8>,
    pub psram: Seq<u8>,
    pub rtc_slow: Seq<u8>,
    pub rtc_fast: Seq<u8>,
    pub rom_data: Seq<u8>,
    pub pool: Seq<u8>,
    /// Cache page table.
    pub mmu: Seq<u32>,
    /// The ROM is booting: the windows show the raw flash, but for the loader
    /// scratch area.
    pub rom_boot: bool,
    /// Length of the loader scratch area.
    pub scratch_len: u32,
    /// Flash encryption is on, and what the flash decrypts to. The cipher stands
    /// outside: whoever holds it hands the decrypted contents in.
    pub crypt: bool,
    pub plain: Seq<u8>,
}

/// `n` zero bytes.
pub open spec fn zeros(n: nat) -> Seq<u8> {
    Seq::new(n, |i: int| 0u8)
}

impl MemState {
    /// Power-on contents: zeros, and a page table of invalid entries.
    pub open spec fn reset() -> MemState {
        MemState {
            sram: zeros(DRAM_SIZE as nat),
            iram0: zeros(SRAM0_SIZE as nat),
            irom: zeros(IROM_SIZE as nat),
            flash: zeros(FLASH_SIZE as nat),
            psram: zeros(PSRAM_SIZE as nat),
            rtc_slow: zeros(RTC_SLOW_SIZE as nat),
            rtc_fast: zeros(RTC_FAST_SIZE as nat),
            rom_data: zeros(ROM_DATA_SIZE as nat),
            pool: zeros(WIFI_ARD_POOL_SIZE as nat),
            mmu: Seq::new(MMU_ENTRIES as nat, |i: int| MMU_INVALID),
            rom_boot: false,
            scratch_len: 0x6_0000,
            crypt: false,
            plain: Seq::empty(),
        }
    }

    /// Every store has its size.
    pub open spec fn wf(self) -> bool {
        &&& self.sram.len() == DRAM_SIZE
        &&& self.iram0.len() == SRAM0_SIZE
        &&& self.irom.len() == IROM_SIZE
        &&& self.flash.len() == FLASH_SIZE
        &&& self.psram.len() == PSRAM_SIZE
        &&& self.rtc_slow.len() == RTC_SLOW_SIZE
        &&& self.rtc_fast.len() == RTC_FAST_SIZE
        &&& self.rom_data.len() == ROM_DATA_SIZE
        &&& self.pool.len() == WIFI_ARD_POOL_SIZE
        &&& self.mmu.len() == MMU_ENTRIES
        &&& self.crypt ==> self.plain.len() == FLASH_SIZE
    }

    /// The flash as the windows show it: decrypted while encryption is on.
    pub open spec fn flash_view(self) -> Seq<u8> {
        if self.crypt {
            self.plain
        } else {
            self.flash
        }
    }

    /// Flash encryption is turned on, with `view` as the decrypted contents, or
    /// off. A view too short is filled up with zeros.
    pub open spec fn with_crypt(self, on: bool, view: Seq<u8>) -> MemState {
        MemState {
            crypt: on,
            plain: if on {
                overlaid(zeros(FLASH_SIZE as nat), 0, view)
            } else {
                Seq::empty()
            },
            ..self
        }
    }

    /// Number of whole blocks of a region that lie in the flash and for which
    /// there is ciphertext.
    pub open spec fn blocks_encrypted(self, off: u32, len: u32, cipher: Seq<u8>) -> nat {
        let n = crate::flashenc::block_count(off, len, self.flash.len());
        if !self.crypt {
            0
        } else if n <= cipher.len() / 16 {
            n
        } else {
            cipher.len() / 16
        }
    }

    /// The blocks of a region are replaced by their ciphertext, and what they
    /// held is what they decrypt to. Nothing is done while encryption is off.
    pub open spec fn with_encrypted(self, off: u32, len: u32, cipher: Seq<u8>) -> MemState {
        let first = crate::flashenc::first_block(off);
        let end = first + 16 * self.blocks_encrypted(off, len, cipher);
        MemState {
            flash: Seq::new(
                self.flash.len(),
                |x: int|
                    if first <= x < end {
                        cipher[x - first]
                    } else {
                        self.flash[x]
                    },
            ),
            plain: Seq::new(
                self.plain.len(),
                |x: int|
                    if first <= x < end {
                        self.flash[x]
                    } else {
                        self.plain[x]
                    },
            ),
            ..self
        }
    }

    /// The window offset is read through the page table.
    pub open spec fn window_mapped(self, off: u32) -> bool {
        !self.rom_boot || (LOADER_SCRATCH_OFF <= off && off < LOADER_SCRATCH_OFF
            + self.scratch_len)
    }

    /// Byte seen at a window offset.
    pub open spec fn window_byte(self, off: u32) -> u8 {
        if self.window_mapped(off) {
            match translated(self.mmu, off) {
                Target::Flash(o) => at(self.flash_view(), o as int),
                Target::Psram(o) => at(self.psram, o as int),
            }
        } else {
            at(self.flash_view(), off as int)
        }
    }

    /// Byte at an address.
    pub open spec fn byte(self, addr: u32) -> u8 {
        match place(addr) {
            Place::Pool(o) => at(self.pool, o as int),
            Place::Sram(o) => at(self.sram, o as int),
            Place::Iram0(o) => at(self.iram0, o as int),
            Place::Irom(o) => at(self.irom, o as int),
            Place::Window(o) => self.window_byte(o),
            Place::RtcSlow(o) => at(self.rtc_slow, o as int),
            Place::RtcFast(o) => at(self.rtc_fast, o as int),
            Place::RomData(o) => at(self.rom_data, o as int),
            Place::Apb => 0,
            Place::Nowhere => 0,
        }
    }

    /// The memories after a byte store.
    pub open spec fn with_byte(self, addr: u32, v: u8) -> MemState {
        match place(addr) {
            Place::Pool(o) => MemState { pool: put(self.pool, o as int, v), ..self },
            Place::Sram(o) => MemState { sram: put(self.sram, o as int, v), ..self },
            Place::Iram0(o) => MemState { iram0: put(self.iram0, o as int, v), ..self },
            Place::Window(o) => match translated(self.mmu, o) {
                Target::Flash(_) => self,
                Target::Psram(p) => MemState { psram: put(self.psram, p as int, v), ..self },
            },
            Place::RtcSlow(o) => MemState { rtc_slow: put(self.rtc_slow, o as int, v), ..self },
            Place::RtcFast(o) => MemState { rtc_fast: put(self.rtc_fast, o as int, v), ..self },
            Place::RomData(o) => MemState { rom_data: put(self.rom_data, o as int, v), ..self },
            Place::Irom(_) => self,
            Place::Apb => self,
            Place::Nowhere => self,
        }
    }

    /// Word at an address.
    pub open spec fn word(self, addr: u32) -> u32 {
        crate::bytes::le_word(
            self.byte(addr),
            self.byte(addr.wrapping_add(1)),
            self.byte(addr.wrapping_add(2)),
            self.byte(addr.wrapping_add(3)),
        )
    }

    /// The memories after a word store.
    pub open spec fn with_word(self, addr: u32, w: u32) -> MemState {
        self.with_byte(addr, crate::bytes::byte_lane(w, 0)).with_byte(
            addr.wrapping_add(1),
            crate::bytes::byte_lane(w, 1),
        ).with_byte(addr.wrapping_add(2), crate::bytes::byte_lane(w, 2)).with_byte(
            addr.wrapping_add(3),
            crate::bytes::byte_lane(w, 3),
        )
    }
}

/// A processor byte store reaches the memories unless it hits a console hook
/// cell.
pub open spec fn hook_cell(addr: u32) -> bool {
    addr == PUTC2_CELL || addr == PUTC2_CELL_ALT
}

impl MemState {
    /// The memories after a processor byte store.
    pub open spec fn storing8(self, addr: u32, v: u8) -> MemState {
        if hook_cell(addr) {
            self
        } else {
            self.with_byte(addr, v)
        }
    }

    /// The memories after a processor word store. A word store to a console
    /// hook cell is dropped whole; one that only covers the cell's first byte
    /// loses that byte.
    pub open spec fn storing32(self, addr: u32, w: u32) -> MemState {
        if hook_cell(addr) {
            self
        } else {
            self.storing8(addr, crate::bytes::byte_lane(w, 0)).storing8(
                addr.wrapping_add(1),
                crate::bytes::byte_lane(w, 1),
            ).storing8(addr.wrapping_add(2), crate::bytes::byte_lane(w, 2)).storing8(
                addr.wrapping_add(3),
                crate::bytes::byte_lane(w, 3),
            )
        }
    }
}

/// The memories.
pub struct Memory {
    sram: Vec<u8>,
    iram0: Vec<u8>,
    irom: Vec<u8>,
    flash: Vec<u8>,
    psram: Vec<u8>,
    rtc_slow: Vec<u8>,
    rtc_fast: Vec<u8>,
    rom_data: Vec<u8>,
    pool: Vec<u8>,
    mmu: Vec<u32>,
    rom_boot: bool,
    scratch_len: u32,
    crypt: bool,
    plain: Vec<u8>,
}

impl View for Memory {
    type V = MemState;

    closed spec fn view(&self) -> MemState {
        MemState {
            sram: self.sram@,
            iram0: self.iram0@,
            irom: self.irom@,
            flash: self.flash@,
            psram: self.psram@,
            rtc_slow: self.rtc_slow@,
            rtc_fast: self.rtc_fast@,
            rom_data: self.rom_data@,
            pool: self.pool@,
            mmu: self.mmu@,
            rom_boot: self.rom_boot,
            scratch_len: self.scratch_len,
            crypt: self.crypt,
            plain: self.plain@,
        }
    }
}

fn in_window(addr: u32, base: u32, size: u32) -> (r: bool)
    ensures
        r == within(addr, base, size),
{
    base <= addr && addr - base < size
}

/// Undo the I/O-block aliasing.
pub fn ioblock_remap(addr: u32) -> (r: u32)
    ensures
        r == remapped(addr),
{
    if in_window(addr, CACHED_IOBLOCK_BASE, DRAM_SIZE) {
        DRAM_BASE + (addr - CACHED_IOBLOCK_BASE)
    } else if in_window(addr, BYPASS_IOBLOCK_BASE, DRAM_SIZE) {
        DRAM_BASE + (addr - BYPASS_IOBLOCK_BASE)
    } else {
        addr
    }
}

/// Find the store behind a byte address.
pub fn locate(addr: u32) -> (p: Place)
    ensures
        p == place(addr),
{
    if in_window(addr, WIFI_ARD_POOL, WIFI_ARD_POOL_SIZE) {
        Place::Pool(addr - WIFI_ARD_POOL)
    } else if in_window(addr, DRAM_BASE, DRAM_SIZE) {
        Place::Sram(addr - DRAM_BASE)
    } else if in_window(addr, IRAM_BASE, SRAM0_SIZE) {
        Place::Iram0(addr - IRAM_BASE)
    } else if in_window(addr, IRAM_BASE, IRAM_WINDOW_SIZE) {
        Place::Sram(DIRAM_DATA_BASE - DRAM_BASE + (addr - DIRAM_INST_BASE))
    } else if in_window(addr, IROM_BASE, IROM_SIZE) {
        Place::Irom(addr - IROM_BASE)
    } else if in_window(addr, FLASH_DATA_BASE, FLASH_WINDOW_SIZE) || in_window(
        addr,
        FLASH_INST_BASE,
        FLASH_WINDOW_SIZE,
    ) {
        Place::Window(addr & WINDOW_MASK)
    } else if in_window(addr, RTC_SLOW_BASE, RTC_SLOW_SIZE) {
        Place::RtcSlow(addr - RTC_SLOW_BASE)
    } else if in_window(addr, RTC_FAST_BASE, RTC_FAST_SIZE) {
        Place::RtcFast(addr - RTC_FAST_BASE)
    } else if in_window(addr, ROM_DATA_BASE, ROM_DATA_SIZE) {
        Place::RomData(addr - ROM_DATA_BASE)
    } else if in_window(addr, APB_BASE, APB_SIZE) {
        Place::Apb
    } else {
        Place::Nowhere
    }
}

fn get(store: &Vec<u8>, i: u32) -> (v: u8)
    ensures
        v == at(store@, i as int),
{
    if (i as usize) < store.len() {
        store[i as usize]
    } else {
        0
    }
}

fn set(store: &mut Vec<u8>, i: u32, v: u8)
    ensures
        final(store)@ == put(old(store)@, i as int, v),
{
    if (i as usize) < store.len() {
        store[i as usize] = v;
    }
}

fn zeroed(n: u32) -> (v: Vec<u8>)
    ensures
        v@ == zeros(n as nat),
{
    let v = vec![0u8; n as usize];
    assert(v@ =~= zeros(n as nat));
    v
}

impl Memory {
    pub fn new() -> (m: Self)
        ensures
            m@ == MemState::reset(),
            m@.wf(),
    {
        let m = Memory {
            sram: zeroed(DRAM_SIZE),
            iram0: zeroed(SRAM0_SIZE),
            irom: zeroed(IROM_SIZE),
            flash: zeroed(FLASH_SIZE),
            psram: zeroed(PSRAM_SIZE),
            rtc_slow: zeroed(RTC_SLOW_SIZE),
            rtc_fast: zeroed(RTC_FAST_SIZE),
            rom_data: zeroed(ROM_DATA_SIZE),
            pool: zeroed(WIFI_ARD_POOL_SIZE),
            mmu: vec![MMU_INVALID; MMU_ENTRIES as usize],
            rom_boot: false,
            scratch_len: 0x6_0000,
            crypt: false,
            plain: Vec::new(),
        };
        assert(m@ =~= MemState::reset());
        m
    }

    /// Translate a window offset.
    fn translate(&self, off: u32) -> (t: Target)
        ensures
            t == translated(self@.mmu, off),
    {
        broadcast use crate::bits::lemma_and_le;

        let i: usize = (off / CACHE_PAGE_SIZE) as usize;
        let e: u32 = if i < self.mmu.len() {
            self.mmu[i]
        } else {
            MMU_INVALID
        };
        let page: u32 = e & MMU_PAGE_MASK;
        let inside: u32 = off % CACHE_PAGE_SIZE;
        if e & MMU_INVALID != 0 {
            Target::Flash(off)
        } else if e & MMU_PSRAM != 0 {
            Target::Psram(page * CACHE_PAGE_SIZE + inside)
        } else {
            Target::Flash(page * CACHE_PAGE_SIZE + inside)
        }
    }

    /// Byte of the flash as the windows show it.
    fn flash_byte(&self, off: u32) -> (v: u8)
        ensures
            v == at(self@.flash_view(), off as int),
    {
        if self.crypt {
            get(&self.plain, off)
        } else {
            get(&self.flash, off)
        }
    }

    fn window_read8(&self, off: u32) -> (v: u8)
        ensures
            v == self@.window_byte(off),
    {
        if !self.rom_boot || (LOADER_SCRATCH_OFF <= off && off - LOADER_SCRATCH_OFF
            < self.scratch_len) {
            match self.translate(off) {
                Target::Flash(o) => self.flash_byte(o),
                Target::Psram(o) => get(&self.psram, o),
            }
        } else {
            self.flash_byte(off)
        }
    }

    /// Byte at an address.
    pub fn read8(&self, addr: u32) -> (v: u8)
        ensures
            v == self@.byte(addr),
    {
        match locate(addr) {
            Place::Pool(o) => get(&self.pool, o),
            Place::Sram(o) => get(&self.sram, o),
            Place::Iram0(o) => get(&self.iram0, o),
            Place::Irom(o) => get(&self.irom, o),
            Place::Window(o) => self.window_read8(o),
            Place::RtcSlow(o) => get(&self.rtc_slow, o),
            Place::RtcFast(o) => get(&self.rtc_fast, o),
            Place::RomData(o) => get(&self.rom_data, o),
            Place::Apb => 0,
            Place::Nowhere => 0,
        }
    }

    /// Store a byte, console hook cells included.
    fn poke8(&mut self, addr: u32, v: u8)
        ensures
            final(self)@ == old(self)@.with_byte(addr, v),
    {
        match locate(addr) {
            Place::Pool(o) => set(&mut self.pool, o, v),
            Place::Sram(o) => set(&mut self.sram, o, v),
            Place::Iram0(o) => set(&mut self.iram0, o, v),
            Place::Irom(_) => {},
            Place::Window(o) => {
                match self.translate(o) {
                    Target::Flash(_) => {},
                    Target::Psram(p) => set(&mut self.psram, p, v),
                }
            },
            Place::RtcSlow(o) => set(&mut self.rtc_slow, o, v),
            Place::RtcFast(o) => set(&mut self.rtc_fast, o, v),
            Place::RomData(o) => set(&mut self.rom_data, o, v),
            Place::Apb => {},
            Place::Nowhere => {},
        }
        assert(self@ =~= old(self)@.with_byte(addr, v));
    }

    /// Processor byte store.
    pub fn write8(&mut self, addr: u32, v: u8)
        ensures
            final(self)@ == old(self)@.storing8(addr, v),
    {
        if addr != PUTC2_CELL && addr != PUTC2_CELL_ALT {
            self.poke8(addr, v);
        }
    }

    /// Word at an address.
    pub fn read32(&self, addr: u32) -> (w: u32)
        ensures
            w == self@.word(addr),
    {
        word_from_le(
            self.read8(addr),
            self.read8(addr.wrapping_add(1)),
            self.read8(addr.wrapping_add(2)),
            self.read8(addr.wrapping_add(3)),
        )
    }

    /// Processor word store.
    pub fn write32(&mut self, addr: u32, w: u32)
        ensures
            final(self)@ == old(self)@.storing32(addr, w),
    {
        if addr != PUTC2_CELL && addr != PUTC2_CELL_ALT {
            self.write8(addr, lane(w, 0));
            self.write8(addr.wrapping_add(1), lane(w, 1));
            self.write8(addr.wrapping_add(2), lane(w, 2));
            self.write8(addr.wrapping_add(3), lane(w, 3));
        }
    }

    /// Store a word, console hook cells included.
    pub fn poke32(&mut self, addr: u32, w: u32)
        ensures
            final(self)@ == old(self)@.with_word(addr, w),
    {
        self.poke8(addr, lane(w, 0));
        self.poke8(addr.wrapping_add(1), lane(w, 1));
        self.poke8(addr.wrapping_add(2), lane(w, 2));
        self.poke8(addr.wrapping_add(3), lane(w, 3));
    }
}

/// The store with `bytes` laid over it from offset `off` on; bytes that fall
/// past its end are lost.
pub open spec fn overlaid(store: Seq<u8>, off: int, bytes: Seq<u8>) -> Seq<u8> {
    Seq::new(
        store.len(),
        |i: int|
            if off <= i < off + bytes.len() {
                bytes[i - off]
            } else {
                store[i]
            },
    )
}

/// Page table after mapping `n` consecutive pages: table page `v + i` (modulo
/// the table size) shows flash page `f + i`.
pub open spec fn pages_mapped(mmu: Seq<u32>, v: int, f: int, n: nat) -> Seq<u32>
    decreases n,
{
    if n == 0 {
        mmu
    } else {
        let prev = pages_mapped(mmu, v, f, (n - 1) as nat);
        let page = (v + n - 1) % 512;
        if page < prev.len() {
            prev.update(page, ((f + n - 1) % 0x4000) as u32)
        } else {
            prev
        }
    }
}

/// Number of pages that `len` bytes take.
pub open spec fn page_count(len: int) -> nat {
    ((len + (CACHE_PAGE_SIZE - 1)) / (CACHE_PAGE_SIZE as int)) as nat
}

/// An application image starts with a magic byte, and its segments follow the
/// 24-byte header back to back: load address, length, data.
pub const ESP_IMAGE_MAGIC: u8 = 0xE9;

pub const ESP_IMAGE_HEADER: u64 = 24;

/// Load address of the segment header at `pos`.
pub open spec fn segment_load(img: Seq<u8>, pos: int) -> u32 {
    crate::bytes::word_at(img, pos)
}

/// Data length of the segment header at `pos`.
pub open spec fn segment_len(img: Seq<u8>, pos: int) -> u32 {
    crate::bytes::word_at(img, pos + 4)
}

/// Position after `n` segments from `pos` on, as far as their headers lie
/// inside the image.
pub open spec fn segments_end(img: Seq<u8>, pos: int, n: nat) -> int
    decreases n,
{
    if n == 0 || pos + 8 > img.len() {
        pos
    } else {
        segments_end(img, pos + 8 + segment_len(img, pos), (n - 1) as nat)
    }
}

/// Data of the segment at `pos`, cut at the image end.
pub open spec fn segment_data(img: Seq<u8>, pos: int) -> Seq<u8> {
    let end = pos + 8 + segment_len(img, pos);
    img.subrange(pos + 8, if end <= img.len() { end } else { img.len() as int })
}

impl MemState {
    /// One segment is put in place: a segment in a cache window is mapped, one
    /// in an RTC memory is copied, any other is left to the ROM loader.
    pub open spec fn with_segment(self, img: Seq<u8>, pos: int) -> MemState {
        let load = segment_load(img, pos);
        match place(load) {
            Place::Window(off) => MemState {
                mmu: pages_mapped(
                    self.mmu,
                    off as int / CACHE_PAGE_SIZE as int,
                    (pos + 8) / CACHE_PAGE_SIZE as int,
                    page_count(segment_len(img, pos) as int),
                ),
                ..self
            },
            Place::RtcSlow(o) => MemState {
                rtc_slow: overlaid(self.rtc_slow, o as int, segment_data(img, pos)),
                ..self
            },
            Place::RtcFast(o) => MemState {
                rtc_fast: overlaid(self.rtc_fast, o as int, segment_data(img, pos)),
                ..self
            },
            _ => self,
        }
    }

    /// `n` segments from `pos` on are put in place.
    pub open spec fn with_segments(self, img: Seq<u8>, pos: int, n: nat) -> MemState
        decreases n,
    {
        if n == 0 || pos + 8 > img.len() {
            self
        } else {
            self.with_segment(img, pos).with_segments(
                img,
                pos + 8 + segment_len(img, pos),
                (n - 1) as nat,
            )
        }
    }

    /// The application image at `base` is made ready to run: the whole image is
    /// mapped at the loader scratch offset, then its segments are put in place.
    pub open spec fn with_app(self, img: Seq<u8>, base: int) -> MemState {
        if base + ESP_IMAGE_HEADER > img.len() || img[base] != ESP_IMAGE_MAGIC {
            self
        } else {
            let n = img[base + 1] as nat;
            let first = base + ESP_IMAGE_HEADER;
            let size = segments_end(img, first, n) - base;
            MemState {
                scratch_len: (size as u64) as u32,
                mmu: pages_mapped(
                    self.mmu,
                    LOADER_SCRATCH_OFF as int / CACHE_PAGE_SIZE as int,
                    base / CACHE_PAGE_SIZE as int,
                    page_count(size),
                ),
                ..self
            }.with_segments(img, first, n)
        }
    }
}

/// Lay bytes `[from, to)` of `bytes` over a store.
fn overlay(store: &mut Vec<u8>, off: usize, bytes: &[u8], from: usize, to: usize)
    requires
        from <= to <= bytes@.len(),
    ensures
        final(store)@ == overlaid(old(store)@, off as int, bytes@.subrange(from as int, to as int)),
{
    let ghost start = store@;
    let mut i: usize = 0;
    while i < to - from && off < store.len() && i < store.len() - off
        invariant
            from <= to <= bytes@.len(),
            i <= to - from,
            store@.len() == start.len(),
            store@ == overlaid(start, off as int, bytes@.subrange(from as int, from + i)),
        decreases to - from - i,
    {
        let ghost before = store@;
        store[off + i] = bytes[from + i];
        i = i + 1;
        assert(store@ =~= overlaid(start, off as int, bytes@.subrange(from as int, from + i)));
    }
    assert(store@ =~= overlaid(start, off as int, bytes@.subrange(from as int, to as int)));
}

impl Memory {
    /// Map consecutive flash pages.
    fn map_pages(&mut self, v: u32, f: u32, n: u32)
        ensures
            final(self)@ == (MemState {
                mmu: pages_mapped(old(self)@.mmu, v as int, f as int, n as nat),
                ..old(self)@
            }),
    {
        let ghost start = self@;
        let mut i: u32 = 0;
        while i < n
            invariant
                i <= n,
                self@ == (MemState {
                    mmu: pages_mapped(start.mmu, v as int, f as int, i as nat),
                    ..start
                }),
            decreases n - i,
        {
            let page: usize = ((v as u64 + i as u64) % 512) as usize;
            let target: u32 = ((f as u64 + i as u64) % 0x4000) as u32;
            if page < self.mmu.len() {
                self.mmu[page] = target;
            }
            i = i + 1;
            assert(self@.mmu =~= pages_mapped(start.mmu, v as int, f as int, i as nat));
        }
    }

    /// Put the segment at `pos` in place.
    fn place_segment(&mut self, img: &[u8], pos: u64)
        requires
            pos + 8 <= img@.len(),
        ensures
            final(self)@ == old(self)@.with_segment(img@, pos as int),
    {
        let size: u64 = img.len() as u64;
        let load: u32 = load_word(img, pos as usize);
        let len: u32 = load_word(img, pos as usize + 4);
        let data: u64 = pos + 8;
        let end: u64 = if len as u64 <= size - data {
            data + len as u64
        } else {
            size
        };
        match locate(load) {
            Place::Window(off) => {
                let pages: u32 = ((len as u64 + (CACHE_PAGE_SIZE as u64 - 1))
                    / CACHE_PAGE_SIZE as u64) as u32;
                let f: u64 = (data / CACHE_PAGE_SIZE as u64) % 0x4000;
                let ghost start = self@.mmu;
                proof {
                    lemma_pages_mod(
                        start,
                        off as int / CACHE_PAGE_SIZE as int,
                        data as int / CACHE_PAGE_SIZE as int,
                        pages as nat,
                    );
                }
                self.map_pages(off / CACHE_PAGE_SIZE, f as u32, pages);
            },
            Place::RtcSlow(o) => overlay(
                &mut self.rtc_slow,
                o as usize,
                img,
                data as usize,
                end as usize,
            ),
            Place::RtcFast(o) => overlay(
                &mut self.rtc_fast,
                o as usize,
                img,
                data as usize,
                end as usize,
            ),
            _ => {},
        }
        assert(self@ =~= old(self)@.with_segment(img@, pos as int));
    }

    /// Make the application image at `app_flash_off` ready to run.
    pub fn map_app_flash_segments(&mut self, img: &[u8], app_flash_off: u32)
        ensures
            final(self)@ == old(self)@.with_app(img@, app_flash_off as int),
    {
        let base: u64 = app_flash_off as u64;
        let size: u64 = img.len() as u64;
        if size < ESP_IMAGE_HEADER || base > size - ESP_IMAGE_HEADER {
            return ;
        }
        if img[base as usize] != ESP_IMAGE_MAGIC {
            return ;
        }
        let n: u8 = img[base as usize + 1];
        let first: u64 = base + ESP_IMAGE_HEADER;
        let mut end: u64 = first;
        let mut i: u8 = 0;
        while i < n && size >= 8 && end <= size - 8
            invariant
                i <= n,
                size == img@.len() && size <= usize::MAX,
                first == base + ESP_IMAGE_HEADER,
                base <= u32::MAX,
                base <= end <= first + i * 0x1_0000_0007,
                segments_end(img@, first as int, n as nat) == segments_end(
                    img@,
                    end as int,
                    (n - i) as nat,
                ),
            decreases n - i,
        {
            let len: u32 = load_word(img, end as usize + 4);
            end = end + 8 + len as u64;
            i = i + 1;
        }
        assert(end as int == segments_end(img@, first as int, n as nat));
        let total: u64 = end - base;
        let pages: u32 = ((total + (CACHE_PAGE_SIZE as u64 - 1)) / CACHE_PAGE_SIZE as u64) as u32;
        self.scratch_len = total as u32;
        self.map_pages(
            LOADER_SCRATCH_OFF / CACHE_PAGE_SIZE,
            (base / CACHE_PAGE_SIZE as u64) as u32,
            pages,
        );
        let ghost start = self@;
        let mut pos: u64 = first;
        let mut k: u8 = 0;
        while k < n && size >= 8 && pos <= size - 8
            invariant
                k <= n,
                size == img@.len() && size <= usize::MAX,
                first == base + ESP_IMAGE_HEADER,
                base <= u32::MAX,
                pos <= first + k * 0x1_0000_0007,
                start.with_segments(img@, first as int, n as nat) == self@.with_segments(
                    img@,
                    pos as int,
                    (n - k) as nat,
                ),
            decreases n - k,
        {
            let len: u32 = load_word(img, pos as usize + 4);
            self.place_segment(img, pos);
            pos = pos + 8 + len as u64;
            k = k + 1;
        }
    }

    /// Load bytes into the flash at `offset`, while encryption is off; what lies
    /// past its end is lost.
    pub fn load_flash_image(&mut self, offset: u32, bytes: &[u8])
        requires
            !old(self)@.crypt,
        ensures
            final(self)@ == (MemState {
                flash: overlaid(old(self)@.flash, offset as int, bytes@),
                ..old(self)@
            }),
    {
        overlay(&mut self.flash, offset as usize, bytes, 0, bytes.len());
        assert(bytes@.subrange(0, bytes@.len() as int) =~= bytes@);
    }

    /// The flash contents.
    pub fn flash_image(&self) -> (image: &[u8])
        ensures
            image@ == self@.flash,
    {
        self.flash.as_slice()
    }

    /// Word of the data-bus SRAM at byte offset `off`.
    pub fn sram_word(&self, off: u32) -> (w: u32)
        ensures
            w == crate::bytes::word_at(self@.sram, off as int),
    {
        load_word(self.sram.as_slice(), off as usize)
    }

    /// Flash encryption is on.
    pub fn flash_enc_enabled(&self) -> (on: bool)
        ensures
            on == self@.crypt,
    {
        self.crypt
    }

    /// Copy of the flash as the windows show it.
    pub fn flash_image_decrypted(&self) -> (image: Vec<u8>)
        ensures
            image@ == self@.flash_view(),
    {
        if self.crypt {
            copied(&self.plain)
        } else {
            copied(&self.flash)
        }
    }

    /// Turn flash encryption on or off, with the decrypted contents `view`.
    pub fn set_flash_crypt(&mut self, on: bool, view: &[u8])
        ensures
            final(self)@ == old(self)@.with_crypt(on, view@),
    {
        self.crypt = on;
        if on {
            self.plain = zeroed(FLASH_SIZE);
            overlay(&mut self.plain, 0, view, 0, view.len());
            assert(view@.subrange(0, view@.len() as int) =~= view@);
        } else {
            self.plain = Vec::new();
        }
        assert(self@ =~= old(self)@.with_crypt(on, view@));
    }

    /// Encrypt the blocks of a region; `cipher` holds their ciphertext in order.
    pub fn flashenc_encrypt_region(&mut self, off: u32, len: u32, cipher: &[u8])
        requires
            old(self)@.wf(),
        ensures
            final(self)@ == old(self)@.with_encrypted(off, len, cipher@),
    {
        let ghost start = self@;
        let blocks: usize = if self.crypt {
            flashenc_blocks(off, len, FLASH_SIZE).len()
        } else {
            0
        };
        let held: usize = cipher.len() / 16;
        let n: usize = if blocks <= held {
            blocks
        } else {
            held
        };
        let first: usize = (off - off % 16) as usize;
        assert(n == start.blocks_encrypted(off, len, cipher@));
        let mut k: usize = 0;
        while k < 16 * n
            invariant
                k <= 16 * n,
                16 * n <= cipher@.len(),
                n > 0 ==> first + 16 * n <= FLASH_SIZE,
                n > 0 ==> start.plain.len() == FLASH_SIZE,
                start.flash.len() == FLASH_SIZE,
                self@ == (MemState { flash: self@.flash, plain: self@.plain, ..start }),
                self@.flash == Seq::new(
                    start.flash.len(),
                    |x: int|
                        if first <= x < first + k {
                            cipher@[x - first]
                        } else {
                            start.flash[x]
                        },
                ),
                self@.plain == Seq::new(
                    start.plain.len(),
                    |x: int|
                        if first <= x < first + k {
                            start.flash[x]
                        } else {
                            start.plain[x]
                        },
                ),
            decreases 16 * n - k,
        {
            let x: usize = first + k;
            self.plain[x] = self.flash[x];
            self.flash[x] = cipher[k];
            k = k + 1;
            assert(self@.flash =~= Seq::new(
                start.flash.len(),
                |x: int|
                    if first <= x < first + k {
                        cipher@[x - first]
                    } else {
                        start.flash[x]
                    },
            ));
            assert(self@.plain =~= Seq::new(
                start.plain.len(),
                |x: int|
                    if first <= x < first + k {
                        start.flash[x]
                    } else {
                        start.plain[x]
                    },
            ));
        }
        assert(self@ =~= start.with_encrypted(off, len, cipher@));
    }

    /// The boot ROM, for loading it.
    pub fn irom_mut(&mut self) -> (rom: &mut [u8])
        ensures
            rom@ == old(self)@.irom,
            final(self)@ == (MemState { irom: final(rom)@, ..old(self)@ }),
    {
        self.irom.as_mut_slice()
    }

    /// RTC slow memory.
    pub fn rtc_slow_mut(&mut self) -> (slow: &mut [u8])
        ensures
            slow@ == old(self)@.rtc_slow,
            final(self)@ == (MemState { rtc_slow: final(slow)@, ..old(self)@ }),
    {
        self.rtc_slow.as_mut_slice()
    }

    pub fn rom_boot_mode(&self) -> (on: bool)
        ensures
            on == self@.rom_boot,
    {
        self.rom_boot
    }

    pub fn set_rom_boot_mode(&mut self, on: bool)
        ensures
            final(self)@ == (MemState { rom_boot: on, ..old(self)@ }),
    {
        self.rom_boot = on;
    }
}

/// Flash page numbers count modulo the page field.
proof fn lemma_pages_mod(mmu: Seq<u32>, v: int, f: int, n: nat)
    requires
        f >= 0,
    ensures
        pages_mapped(mmu, v, f, n) == pages_mapped(mmu, v, f % 0x4000, n),
    decreases n,
{
    if n > 0 {
        lemma_pages_mod(mmu, v, f, (n - 1) as nat);
        assert((f + n - 1) % 0x4000 == (f % 0x4000 + n - 1) % 0x4000);
    }
}

/// Copy a byte vector.
fn copied(v: &Vec<u8>) -> (r: Vec<u8>)
    ensures
        r@ == v@,
{
    let mut r: Vec<u8> = Vec::new();
    r.extend_from_slice(v.as_slice());
    assert(r@ =~= v@);
    r
}

impl Memory {
    /// PSRAM contents, to be kept over a reset.
    pub fn psram_snapshot(&self) -> (snap: Vec<u8>)
        ensures
            snap@ == self@.psram,
    {
        copied(&self.psram)
    }

    /// Put PSRAM contents back; a snapshot of another size is ignored.
    pub fn restore_psram(&mut self, snap: Vec<u8>)
        ensures
            final(self)@ == (MemState {
                psram: if snap@.len() == old(self)@.psram.len() {
                    snap@
                } else {
                    old(self)@.psram
                },
                ..old(self)@
            }),
    {
        if snap.len() == self.psram.len() {
            self.psram = snap;
        }
    }

    /// Lose the PSRAM contents.
    pub fn psram_wipe(&mut self)
        ensures
            final(self)@ == (MemState { psram: zeros(old(self)@.psram.len()), ..old(self)@ }),
    {
        let n: usize = self.psram.len();
        self.psram = vec![0u8; n];
        assert(self.psram@ =~= zeros(old(self)@.psram.len()));
    }

    /// RTC slow and fast memory, to be kept over deep sleep.
    pub fn rtc_snapshot(&self) -> (snap: (Vec<u8>, Vec<u8>))
        ensures
            snap.0@ == self@.rtc_slow,
            snap.1@ == self@.rtc_fast,
    {
        (copied(&self.rtc_slow), copied(&self.rtc_fast))
    }

    /// Put the RTC memories back.
    pub fn restore_rtc(&mut self, slow: Vec<u8>, fast: Vec<u8>)
        ensures
            final(self)@ == (MemState { rtc_slow: slow@, rtc_fast: fast@, ..old(self)@ }),
    {
        self.rtc_slow = slow;
        self.rtc_fast = fast;
    }

    /// Page-table entry register at byte offset `off`; 0 past the table.
    pub fn mmu_read32(&self, off: u32) -> (v: u32)
        ensures
            v == crate::regstore::stored(self@.mmu, off),
    {
        let i: usize = (off / 4) as usize;
        if i < self.mmu.len() {
            self.mmu[i]
        } else {
            0
        }
    }

    pub fn mmu_write32(&mut self, off: u32, value: u32)
        ensures
            final(self)@ == (MemState {
                mmu: crate::regstore::storing(old(self)@.mmu, off, value),
                ..old(self)@
            }),
    {
        let i: usize = (off / 4) as usize;
        if i < self.mmu.len() {
            self.mmu[i] = value;
        }
    }
}

/// A byte of plain read-write memory: SRAM, event blocks, RTC memory, ROM
/// tables.
pub open spec fn writable(addr: u32) -> bool {
    match place(addr) {
        Place::Pool(_) => true,
        Place::Sram(_) => true,
        Place::Iram0(_) => true,
        Place::RtcSlow(_) => true,
        Place::RtcFast(_) => true,
        Place::RomData(_) => true,
        _ => false,
    }
}

/// Byte stores keep the size of every memory, and change neither the boot ROM,
/// the flash, the page table nor the boot mode.
pub proof fn law_store_keeps_sizes(m: MemState, addr: u32, v: u8)
    requires
        m.wf(),
    ensures
        m.storing8(addr, v).wf(),
        m.storing8(addr, v).irom == m.irom,
        m.storing8(addr, v).flash == m.flash,
        m.storing8(addr, v).flash_view() == m.flash_view(),
        m.storing8(addr, v).mmu == m.mmu,
        m.storing8(addr, v).rom_boot == m.rom_boot,
        m.storing8(addr, v).scratch_len == m.scratch_len,
{
}

/// Word stores keep the size of every memory, and change neither the boot ROM,
/// the flash, the page table nor the boot mode.
pub proof fn law_word_store_keeps_sizes(m: MemState, addr: u32, w: u32)
    requires
        m.wf(),
    ensures
        m.storing32(addr, w).wf(),
        m.storing32(addr, w).irom == m.irom,
        m.storing32(addr, w).flash == m.flash,
        m.storing32(addr, w).flash_view() == m.flash_view(),
        m.storing32(addr, w).mmu == m.mmu,
        m.storing32(addr, w).rom_boot == m.rom_boot,
        m.storing32(addr, w).scratch_len == m.scratch_len,
{
    let b0 = crate::bytes::byte_lane(w, 0);
    let b1 = crate::bytes::byte_lane(w, 1);
    let b2 = crate::bytes::byte_lane(w, 2);
    let b3 = crate::bytes::byte_lane(w, 3);
    let m0 = m.storing8(addr, b0);
    let m1 = m0.storing8(addr.wrapping_add(1), b1);
    let m2 = m1.storing8(addr.wrapping_add(2), b2);
    law_store_keeps_sizes(m, addr, b0);
    law_store_keeps_sizes(m0, addr.wrapping_add(1), b1);
    law_store_keeps_sizes(m1, addr.wrapping_add(2), b2);
    law_store_keeps_sizes(m2, addr.wrapping_add(3), b3);
    lemma_storing32(m, addr, w);
}

/// Storing a word keeps the size of every memory.
pub proof fn lemma_word_keeps_sizes(m: MemState, addr: u32, w: u32)
    requires
        m.wf(),
    ensures
        m.with_word(addr, w).wf(),
{
    let m0 = m.with_byte(addr, crate::bytes::byte_lane(w, 0));
    lemma_byte_keeps_sizes(m, addr, crate::bytes::byte_lane(w, 0));
    let m1 = m0.with_byte(addr.wrapping_add(1), crate::bytes::byte_lane(w, 1));
    lemma_byte_keeps_sizes(m0, addr.wrapping_add(1), crate::bytes::byte_lane(w, 1));
    let m2 = m1.with_byte(addr.wrapping_add(2), crate::bytes::byte_lane(w, 2));
    lemma_byte_keeps_sizes(m1, addr.wrapping_add(2), crate::bytes::byte_lane(w, 2));
    lemma_byte_keeps_sizes(m2, addr.wrapping_add(3), crate::bytes::byte_lane(w, 3));
}

proof fn lemma_byte_keeps_sizes(m: MemState, addr: u32, v: u8)
    requires
        m.wf(),
    ensures
        m.with_byte(addr, v).wf(),
{
}

/// A word store away from the hook cells is its four byte stores.
proof fn lemma_storing32(m: MemState, addr: u32, w: u32)
    ensures
        m.storing32(addr, w) == if hook_cell(addr) {
            m
        } else {
            m.storing8(addr, crate::bytes::byte_lane(w, 0)).storing8(
                addr.wrapping_add(1),
                crate::bytes::byte_lane(w, 1),
            ).storing8(addr.wrapping_add(2), crate::bytes::byte_lane(w, 2)).storing8(
                addr.wrapping_add(3),
                crate::bytes::byte_lane(w, 3),
            )
        },
{
}

/// A byte of read-write memory reads back what was stored, and a store leaves
/// every byte alone that lies elsewhere.
pub proof fn law_byte_round_trip(m: MemState, addr: u32, v: u8, other: u32)
    requires
        m.wf(),
        writable(addr),
        !hook_cell(addr),
    ensures
        m.storing8(addr, v).byte(addr) == v,
        place(other) != place(addr) ==> m.storing8(addr, v).byte(other) == m.byte(other),
{
}

/// A word of read-write memory reads back what was stored.
pub proof fn law_word_round_trip(m: MemState, addr: u32, w: u32)
    requires
        m.wf(),
        addr <= 0xFFFF_FFFC,
        forall|k: u32| #![trigger addr.wrapping_add(k)] k < 4 ==> writable(addr.wrapping_add(k)),
        forall|k: u32|
            #![trigger addr.wrapping_add(k)]
            k < 4 ==> !hook_cell(addr.wrapping_add(k)),
    ensures
        m.storing32(addr, w).word(addr) == w,
{
    crate::bytes::lemma_le_word_of_lanes(w);
    assert(addr.wrapping_add(0) == addr);
    let a1 = addr.wrapping_add(1);
    let a2 = addr.wrapping_add(2);
    let a3 = addr.wrapping_add(3);
    lemma_places_differ(addr, a1);
    lemma_places_differ(addr, a2);
    lemma_places_differ(addr, a3);
    lemma_places_differ(a1, a2);
    lemma_places_differ(a1, a3);
    lemma_places_differ(a2, a3);
    let m0 = m.storing8(addr, crate::bytes::byte_lane(w, 0));
    let m1 = m0.storing8(a1, crate::bytes::byte_lane(w, 1));
    let m2 = m1.storing8(a2, crate::bytes::byte_lane(w, 2));
    law_byte_round_trip(m, addr, crate::bytes::byte_lane(w, 0), a1);
    law_byte_round_trip(m0, a1, crate::bytes::byte_lane(w, 1), addr);
    law_byte_round_trip(m1, a2, crate::bytes::byte_lane(w, 2), addr);
    law_byte_round_trip(m1, a2, crate::bytes::byte_lane(w, 2), a1);
    law_byte_round_trip(m2, a3, crate::bytes::byte_lane(w, 3), addr);
    law_byte_round_trip(m2, a3, crate::bytes::byte_lane(w, 3), a1);
    law_byte_round_trip(m2, a3, crate::bytes::byte_lane(w, 3), a2);
}

/// A word of read-write memory reads back what was stored past the console
/// hooks.
pub proof fn lemma_poke_round_trip(m: MemState, addr: u32, w: u32)
    requires
        m.wf(),
        addr <= 0xFFFF_FFFC,
        forall|k: u32| #![trigger addr.wrapping_add(k)] k < 4 ==> writable(addr.wrapping_add(k)),
    ensures
        m.with_word(addr, w).word(addr) == w,
{
    crate::bytes::lemma_le_word_of_lanes(w);
    assert(addr.wrapping_add(0) == addr);
    let a1 = addr.wrapping_add(1);
    let a2 = addr.wrapping_add(2);
    let a3 = addr.wrapping_add(3);
    lemma_places_differ(addr, a1);
    lemma_places_differ(addr, a2);
    lemma_places_differ(addr, a3);
    lemma_places_differ(a1, a2);
    lemma_places_differ(a1, a3);
    lemma_places_differ(a2, a3);
    let m0 = m.with_byte(addr, crate::bytes::byte_lane(w, 0));
    let m1 = m0.with_byte(a1, crate::bytes::byte_lane(w, 1));
    let m2 = m1.with_byte(a2, crate::bytes::byte_lane(w, 2));
    lemma_poke_byte(m, addr, crate::bytes::byte_lane(w, 0), a1);
    lemma_poke_byte(m0, a1, crate::bytes::byte_lane(w, 1), addr);
    lemma_poke_byte(m1, a2, crate::bytes::byte_lane(w, 2), addr);
    lemma_poke_byte(m1, a2, crate::bytes::byte_lane(w, 2), a1);
    lemma_poke_byte(m2, a3, crate::bytes::byte_lane(w, 3), addr);
    lemma_poke_byte(m2, a3, crate::bytes::byte_lane(w, 3), a1);
    lemma_poke_byte(m2, a3, crate::bytes::byte_lane(w, 3), a2);
}

/// A word store keeps every byte at another place.
pub proof fn lemma_poke_keeps_others(m: MemState, addr: u32, w: u32, other: u32)
    requires
        m.wf(),
        addr <= 0xFFFF_FFFC,
        forall|k: u32| #![trigger addr.wrapping_add(k)] k < 4 ==> writable(addr.wrapping_add(k)),
        forall|k: u32|
            #![trigger addr.wrapping_add(k)]
            k < 4 ==> place(other) != place(addr.wrapping_add(k)),
    ensures
        m.with_word(addr, w).byte(other) == m.byte(other),
{
    assert(addr.wrapping_add(0) == addr);
    let a1 = addr.wrapping_add(1);
    let a2 = addr.wrapping_add(2);
    let a3 = addr.wrapping_add(3);
    let m0 = m.with_byte(addr, crate::bytes::byte_lane(w, 0));
    let m1 = m0.with_byte(a1, crate::bytes::byte_lane(w, 1));
    let m2 = m1.with_byte(a2, crate::bytes::byte_lane(w, 2));
    lemma_poke_byte(m, addr, crate::bytes::byte_lane(w, 0), other);
    lemma_poke_byte(m0, a1, crate::bytes::byte_lane(w, 1), other);
    lemma_poke_byte(m1, a2, crate::bytes::byte_lane(w, 2), other);
    lemma_poke_byte(m2, a3, crate::bytes::byte_lane(w, 3), other);
}

proof fn lemma_poke_byte(m: MemState, addr: u32, v: u8, other: u32)
    requires
        m.wf(),
        writable(addr),
    ensures
        m.with_byte(addr, v).wf(),
        m.with_byte(addr, v).byte(addr) == v,
        place(other) != place(addr) ==> m.with_byte(addr, v).byte(other) == m.byte(other),
{
}

/// Nearby addresses of read-write memory are different bytes.
pub proof fn lemma_places_differ(a: u32, b: u32)
    requires
        writable(a),
        writable(b),
        a < b < a + 4,
    ensures
        place(a) != place(b),
{
}

/// The instruction-bus window past the instruction-only cells shows the
/// data-bus SRAM: a store on one side is read on the other.
pub proof fn law_dram_iram_alias(m: MemState, k: u32, v: u8)
    requires
        m.wf(),
        k < IRAM_WINDOW_SIZE - SRAM0_SIZE,
        !hook_cell((DIRAM_DATA_BASE + k) as u32),
        !within((DIRAM_DATA_BASE + k) as u32, WIFI_ARD_POOL, WIFI_ARD_POOL_SIZE),
    ensures
        m.byte((DIRAM_INST_BASE + k) as u32) == m.byte((DIRAM_DATA_BASE + k) as u32),
        m.storing8((DIRAM_DATA_BASE + k) as u32, v).byte((DIRAM_INST_BASE + k) as u32) == v,
        m.storing8((DIRAM_INST_BASE + k) as u32, v).byte((DIRAM_DATA_BASE + k) as u32) == v,
{
}

/// Both I/O-block windows are the data-bus SRAM, and remapping is done once.
pub proof fn law_ioblock_alias(addr: u32, k: u32)
    requires
        k < DRAM_SIZE,
    ensures
        remapped((CACHED_IOBLOCK_BASE + k) as u32) == DRAM_BASE + k,
        remapped((BYPASS_IOBLOCK_BASE + k) as u32) == DRAM_BASE + k,
        remapped(remapped(addr)) == remapped(addr),
{
}

/// Mapping `n` pages (no more than the table has) makes table page `v + i`
/// show flash page `f + i`.
#[verifier::spinoff_prover]
#[verifier::rlimit(60)]
pub proof fn law_pages_mapped(mmu: Seq<u32>, v: int, f: int, n: nat, i: nat)
    requires
        mmu.len() == MMU_ENTRIES,
        0 <= v,
        0 <= f,
        i < n <= MMU_ENTRIES,
    ensures
        pages_mapped(mmu, v, f, n).len() == mmu.len(),
        pages_mapped(mmu, v, f, n)[(v + i) % 512] == (f + i) % 0x4000,
    decreases n,
{
    lemma_pages_mapped_len(mmu, v, f, n);
    lemma_pages_mapped_len(mmu, v, f, (n - 1) as nat);
    if i < n - 1 {
        law_pages_mapped(mmu, v, f, (n - 1) as nat, i);
        assert((v + i) % 512 != (v + n - 1) % 512);
    }
}

proof fn lemma_pages_mapped_len(mmu: Seq<u32>, v: int, f: int, n: nat)
    ensures
        pages_mapped(mmu, v, f, n).len() == mmu.len(),
    decreases n,
{
    if n > 0 {
        lemma_pages_mapped_len(mmu, v, f, (n - 1) as nat);
    }
}

/// A segment linked into a cache window is seen there: each of its bytes that
/// the mapped pages cover reads at its load address what the flash shows at the
/// segment's place, where the two agree in their offset inside a page.
pub proof fn law_segment_is_seen(m: MemState, img: Seq<u8>, pos: int, k: int)
    requires
        m.wf(),
        !m.rom_boot,
        0 <= pos,
        pos + 8 + segment_len(img, pos) <= FLASH_SIZE,
        0 <= k < segment_len(img, pos),
        within(segment_load(img, pos), FLASH_INST_BASE, FLASH_WINDOW_SIZE) || within(
            segment_load(img, pos),
            FLASH_DATA_BASE,
            FLASH_WINDOW_SIZE,
        ),
        segment_load(img, pos) % CACHE_PAGE_SIZE == (pos + 8) % CACHE_PAGE_SIZE as int,
        (pos + 8) % CACHE_PAGE_SIZE as int + k < page_count(segment_len(img, pos) as int)
            * CACHE_PAGE_SIZE,
        (segment_load(img, pos) & WINDOW_MASK) + segment_len(img, pos) <= FLASH_WINDOW_SIZE,
    ensures
        m.with_segment(img, pos).window_byte(((segment_load(img, pos) & WINDOW_MASK) + k) as u32)
            == m.flash_view()[pos + 8 + k],
{
    let load = segment_load(img, pos);
    let len = segment_len(img, pos) as int;
    let off = load & WINDOW_MASK;
    assert(off % 0x1_0000 == load % 0x1_0000) by (bit_vector)
        requires
            off == load & 0x01FF_FFFF,
    ;
    assert(place(load) == Place::Window(off));
    let v = off as int / 0x1_0000;
    let f = (pos + 8) / 0x1_0000;
    let n = page_count(len);
    let i = ((off as int % 0x1_0000 + k) / 0x1_0000) as nat;
    law_pages_mapped(m.mmu, v, f, n, i);
    let m1 = m.with_segment(img, pos);
    let o = (off + k) as u32;
    assert(o as int / 0x1_0000 == v + i);
    assert(o % 0x1_0000 == (pos + 8 + k) % 0x1_0000);
    let e = m1.mmu[v + i];
    assert(e == f + i);
    crate::bits::lemma_fields(e);
}

/// An encrypted device shows through its windows what a region held before it
/// was encrypted, while the flash itself holds the ciphertext; blocks outside
/// the region keep both. A plain device shows the flash as it is.
pub proof fn law_encryption_is_transparent(m: MemState, off: u32, len: u32, cipher: Seq<u8>, x: int)
    requires
        m.wf(),
        0 <= x < FLASH_SIZE,
    ensures
        m.with_encrypted(off, len, cipher).wf(),
        m.crypt && crate::flashenc::first_block(off) <= x < crate::flashenc::first_block(off) + 16
            * m.blocks_encrypted(off, len, cipher) ==> {
            &&& m.with_encrypted(off, len, cipher).flash_view()[x] == m.flash[x]
            &&& m.with_encrypted(off, len, cipher).flash[x] == cipher[x
                - crate::flashenc::first_block(off)]
        },
        m.crypt && !(crate::flashenc::first_block(off) <= x < crate::flashenc::first_block(off) + 16
            * m.blocks_encrypted(off, len, cipher)) ==> {
            &&& m.with_encrypted(off, len, cipher).flash_view()[x] == m.flash_view()[x]
            &&& m.with_encrypted(off, len, cipher).flash[x] == m.flash[x]
        },
        !m.crypt ==> m.flash_view() == m.flash && m.with_encrypted(off, len, cipher) == m,
{
    if !m.crypt {
        assert(m.with_encrypted(off, len, cipher) =~= m);
    }
}

/// A device is provisioned and a region of whole blocks encrypted, with
/// ciphertext for all its blocks at hand: the region then decrypts to what it
/// held before and holds the ciphertext, and the rest of the flash is left
/// alone. A device that is not provisioned is not changed, and shows its flash
/// as it is.
pub proof fn law_provisioned_region_reads_back(
    m: MemState,
    crypt_cnt: u32,
    view: Seq<u8>,
    off: u32,
    len: u32,
    cipher: Seq<u8>,
)
    requires
        m.wf(),
        !m.crypt,
        (crypt_cnt >> 0) & 1 == 0,
        !crate::flashenc::odd(crypt_cnt),
        off % 16 == 0,
        len % 16 == 0,
        off + len <= FLASH_SIZE,
        cipher.len() >= 16 * crate::flashenc::block_count(off, len, FLASH_SIZE as nat),
    ensures
        ({
            let p = m.with_crypt(crate::flashenc::odd(crypt_cnt | 1), view);
            let e = p.with_encrypted(off, len, cipher);
            &&& e.flash_view().subrange(off as int, off + len) == m.flash.subrange(
                off as int,
                off + len,
            )
            &&& e.flash.subrange(off as int, off + len) == cipher.take(len as int)
            &&& forall|x: int|
                0 <= x < FLASH_SIZE && !(off <= x < off + len) ==> #[trigger] e.flash[x]
                    == m.flash[x]
        }),
        m.with_encrypted(off, len, cipher) == m,
        m.flash_view() == m.flash,
{
    crate::bits::lemma_constants();
    crate::flashenc::law_each_burn_toggles(crypt_cnt, 0);
    let p = m.with_crypt(true, view);
    let e = p.with_encrypted(off, len, cipher);
    assert(16 * crate::flashenc::block_count(off, len, FLASH_SIZE as nat) == len);
    assert(e.flash_view().subrange(off as int, off + len) =~= m.flash.subrange(
        off as int,
        off + len,
    ));
    assert(e.flash.subrange(off as int, off + len) =~= cipher.take(len as int));
    assert(m.with_encrypted(off, len, cipher) =~= m);
}

/// Block `b` of the flash.
pub open spec fn flash_block(flash: Seq<u8>, b: int) -> Seq<u8> {
    flash.subrange(16 * b, 16 * b + 16)
}

/// What the flash decrypts to, block by block; `dec` decrypts the block at an
/// offset.
pub open spec fn decrypted(flash: Seq<u8>, dec: spec_fn(u32, Seq<u8>) -> Seq<u8>) -> Seq<u8> {
    Seq::new(
        flash.len(),
        |x: int| dec((x - x % 16) as u32, flash_block(flash, x / 16))[x % 16],
    )
}

/// Ciphertext of the blocks of a region; `enc` encrypts the block at an offset.
pub open spec fn encrypted_region(
    flash: Seq<u8>,
    off: u32,
    len: u32,
    enc: spec_fn(u32, Seq<u8>) -> Seq<u8>,
) -> Seq<u8> {
    let first = crate::flashenc::first_block(off);
    Seq::new(
        16 * crate::flashenc::block_count(off, len, flash.len()),
        |i: int|
            enc((first + i - i % 16) as u32, flash_block(flash, (first + i) / 16))[i % 16],
    )
}

/// Flash encryption reads back, whatever cipher is used, as long as it undoes its
/// own encryption. A device is provisioned and a region encrypted: the decrypted
/// contents of the region are what it held before, those of the whole flash are what
/// the cipher makes of it, and the flash outside the region is left alone. On a
/// device that is not provisioned nothing is encrypted, and the decrypted contents
/// are the flash as it is.
pub proof fn law_cipher_reads_back(
    m: MemState,
    off: u32,
    len: u32,
    enc: spec_fn(u32, Seq<u8>) -> Seq<u8>,
    dec: spec_fn(u32, Seq<u8>) -> Seq<u8>,
)
    requires
        m.wf(),
        forall|o: u32, x: Seq<u8>|
            x.len() == 16 ==> (#[trigger] enc(o, x)).len() == 16 && dec(o, enc(o, x)) == x,
    ensures
        ({
            let p = m.with_crypt(true, decrypted(m.flash, dec));
            let e = p.with_encrypted(off, len, encrypted_region(m.flash, off, len, enc));
            let first = crate::flashenc::first_block(off);
            let end = first + 16 * crate::flashenc::block_count(off, len, FLASH_SIZE as nat);
            &&& p.flash == m.flash && p.flash_view() == decrypted(m.flash, dec)
            &&& e.flash_view() == decrypted(e.flash, dec)
            &&& forall|x: int|
                0 <= x < FLASH_SIZE && first <= x < end ==> #[trigger] e.flash_view()[x]
                    == m.flash[x]
            &&& forall|x: int|
                0 <= x < FLASH_SIZE && !(first <= x < end) ==> #[trigger] e.flash[x] == m.flash[x]
            &&& off % 16 == 0 && len % 16 == 0 && off + len <= FLASH_SIZE ==> first == off && end
                == off + len
        }),
        !m.crypt ==> m.flash_view() == m.flash && forall|cipher: Seq<u8>|
            m.with_encrypted(off, len, cipher) == m,
{
    let p = m.with_crypt(true, decrypted(m.flash, dec));
    let cipher = encrypted_region(m.flash, off, len, enc);
    let e = p.with_encrypted(off, len, cipher);
    let first = crate::flashenc::first_block(off);
    let n = crate::flashenc::block_count(off, len, FLASH_SIZE as nat) as int;
    assert(p.flash_view() =~= decrypted(m.flash, dec));
    assert(p.blocks_encrypted(off, len, cipher) == n);
    assert forall|x: int| 0 <= x < FLASH_SIZE implies #[trigger] e.flash_view()[x] == decrypted(
        e.flash,
        dec,
    )[x] by {
        let b = x / 16;
        let was = flash_block(m.flash, b);
        if first <= x < first + 16 * n {
            let o = (x - x % 16) as u32;
            assert forall|k: int| 0 <= k < 16 implies flash_block(e.flash, b)[k] == enc(
                o,
                was,
            )[k] by {
                let i = 16 * b + k - first;
                assert(0 <= i < 16 * n);
                assert(i % 16 == k && (first + i) / 16 == b);
            }
            assert(flash_block(e.flash, b) =~= enc(o, was));
            assert(was[x % 16] == m.flash[x]);
        } else {
            assert(flash_block(e.flash, b) =~= was);
        }
    }
    assert(e.flash_view() =~= decrypted(e.flash, dec));
    if !m.crypt {
        assert forall|cipher: Seq<u8>| m.with_encrypted(off, len, cipher) == m by {
            assert(m.with_encrypted(off, len, cipher) =~= m);
        }
    }
}

/// Preparing an application keeps the size of every memory, and touches only
/// the page table, the scratch length and the RTC memories.
pub proof fn law_app_keeps_sizes(m: MemState, img: Seq<u8>, base: int)
    requires
        m.wf(),
    ensures
        m.with_app(img, base).wf(),
        m.with_app(img, base) == (MemState {
            mmu: m.with_app(img, base).mmu,
            scratch_len: m.with_app(img, base).scratch_len,
            rtc_slow: m.with_app(img, base).rtc_slow,
            rtc_fast: m.with_app(img, base).rtc_fast,
            ..m
        }),
{
    if base + ESP_IMAGE_HEADER <= img.len() && img[base] == ESP_IMAGE_MAGIC {
        let n = img[base + 1] as nat;
        let first = base + ESP_IMAGE_HEADER;
        let size = segments_end(img, first, n) - base;
        let v = LOADER_SCRATCH_OFF as int / CACHE_PAGE_SIZE as int;
        lemma_pages_mapped_len(m.mmu, v, base / CACHE_PAGE_SIZE as int, page_count(size));
        let m1 = MemState {
            scratch_len: (size as u64) as u32,
            mmu: pages_mapped(m.mmu, v, base / CACHE_PAGE_SIZE as int, page_count(size)),
            ..m
        };
        lemma_segments_keep_sizes(m1, img, first, n);
    }
}

proof fn lemma_segments_keep_sizes(m: MemState, img: Seq<u8>, pos: int, n: nat)
    requires
        m.wf(),
    ensures
        m.with_segments(img, pos, n).wf(),
        m.with_segments(img, pos, n) == (MemState {
            mmu: m.with_segments(img, pos, n).mmu,
            rtc_slow: m.with_segments(img, pos, n).rtc_slow,
            rtc_fast: m.with_segments(img, pos, n).rtc_fast,
            ..m
        }),
    decreases n,
{
    if n > 0 && pos + 8 <= img.len() {
        let m1 = m.with_segment(img, pos);
        let load = segment_load(img, pos);
        match place(load) {
            Place::Window(off) => {
                lemma_pages_mapped_len(
                    m.mmu,
                    off as int / CACHE_PAGE_SIZE as int,
                    (pos + 8) / CACHE_PAGE_SIZE as int,
                    page_count(segment_len(img, pos) as int),
                );
            },
            _ => {},
        }
        lemma_segments_keep_sizes(m1, img, pos + 8 + segment_len(img, pos), (n - 1) as nat);
    }
}

} // verus!
