//! WiFi radio pages.
//!
//! The radio's registers are plain stores, completed by the status bits that its
//! driver polls: the front end always reports its IQ estimate done, the MAC
//! reports its revision, and the MAC control reports ready once it has been
//! written. The transmit DC calibration reports done once per arming.
//!
//! A scan runs for a fixed number of ticks and reports its completion exactly
//! once.

use vstd::prelude::*;
use crate::memmap::{
    BB_BASE, FE2_BASE, FE_BASE, NRX_BASE, WDEV_BASE, WIFI_MAC_BASE, WIFI_MAC_CTRL_BASE,
};
use crate::regstore::RegStore;

pub use crate::scan_fixture::{parse_scan_fixture, parse_scan_fixtures, ScanFixtureAp};

verus! {

/// Words in a radio page.
pub const PAGE_WORDS: usize = 1024;

/// MAC control ready.
pub const MAC_CTRL_READY_OFF: u32 = 0xD14;

pub const MAC_CTRL_READY_BIT: u32 = 1;

/// Front-end IQ estimate done.
pub const FE_IQ_EST_DONE_OFF: u32 = 0x174;

pub const FE_IQ_EST_DONE_BITS: u32 = 0x101_0000;

/// MAC revision.
pub const MAC_REV_OFF: u32 = 0x8C;

pub const MAC_REV_VAL: u32 = 0x4_5000;

/// Transmit DC calibration status.
pub const TXDC_OFF: u32 = 0x4C;

pub const TXDC_DONE_BIT: u32 = 1 << 24;

/// Ticks that a scan takes.
pub const SCAN_DWELL_TICKS: u64 = 4_000_000;

/// The radio.
#[verifier::ext_equal]
pub struct WifiState {
    pub fe: Seq<u32>,
    pub fe2: Seq<u32>,
    pub bb: Seq<u32>,
    pub nrx: Seq<u32>,
    pub mac: Seq<u32>,
    pub mac_ctrl: Seq<u32>,
    pub wdev: Seq<u32>,
    /// The MAC control ready register has been written.
    pub mac_ctrl_armed: bool,
    /// A transmit DC calibration is to report done.
    pub txdc_armed: bool,
    /// Ticks since power-on.
    pub now: u64,
    pub scan_armed: bool,
    pub scan_dwell_remaining: u64,
    pub scan_done_pending: bool,
}

/// A zeroed page.
pub open spec fn zero_page() -> Seq<u32> {
    Seq::new(PAGE_WORDS as nat, |i: int| 0u32)
}

impl WifiState {
    pub open spec fn reset() -> Self {
        WifiState {
            fe: zero_page(),
            fe2: zero_page(),
            bb: zero_page(),
            nrx: zero_page(),
            mac: zero_page(),
            mac_ctrl: zero_page(),
            wdev: zero_page(),
            mac_ctrl_armed: false,
            txdc_armed: false,
            now: 0,
            scan_armed: false,
            scan_dwell_remaining: 0,
            scan_done_pending: false,
        }
    }

    /// The page at `base`; empty if there is none.
    pub open spec fn page(self, base: u32) -> Seq<u32> {
        if base == FE_BASE {
            self.fe
        } else if base == FE2_BASE {
            self.fe2
        } else if base == BB_BASE {
            self.bb
        } else if base == NRX_BASE {
            self.nrx
        } else if base == WIFI_MAC_BASE {
            self.mac
        } else if base == WIFI_MAC_CTRL_BASE {
            self.mac_ctrl
        } else if base == WDEV_BASE {
            self.wdev
        } else {
            Seq::empty()
        }
    }

    pub open spec fn with_page(self, base: u32, page: Seq<u32>) -> Self {
        if base == FE_BASE {
            WifiState { fe: page, ..self }
        } else if base == FE2_BASE {
            WifiState { fe2: page, ..self }
        } else if base == BB_BASE {
            WifiState { bb: page, ..self }
        } else if base == NRX_BASE {
            WifiState { nrx: page, ..self }
        } else if base == WIFI_MAC_BASE {
            WifiState { mac: page, ..self }
        } else if base == WIFI_MAC_CTRL_BASE {
            WifiState { mac_ctrl: page, ..self }
        } else if base == WDEV_BASE {
            WifiState { wdev: page, ..self }
        } else {
            self
        }
    }

    pub open spec fn read(self, base: u32, off: u32) -> u32 {
        let v = crate::regstore::stored(self.page(base), off);
        if base == FE_BASE && off == FE_IQ_EST_DONE_OFF {
            v | FE_IQ_EST_DONE_BITS
        } else if base == WIFI_MAC_CTRL_BASE && off == MAC_CTRL_READY_OFF && self.mac_ctrl_armed {
            v | MAC_CTRL_READY_BIT
        } else if base == WIFI_MAC_BASE && off == MAC_REV_OFF {
            v | MAC_REV_VAL
        } else {
            v
        }
    }

    pub open spec fn written(self, base: u32, off: u32, value: u32) -> Self {
        let s = self.with_page(base, crate::regstore::storing(self.page(base), off, value));
        if base == WIFI_MAC_CTRL_BASE && off == MAC_CTRL_READY_OFF {
            WifiState { mac_ctrl_armed: true, ..s }
        } else {
            s
        }
    }

    pub open spec fn ticked(self, cycles: u64) -> Self {
        WifiState {
            now: self.now.wrapping_add(cycles),
            scan_dwell_remaining: if cycles <= self.scan_dwell_remaining {
                (self.scan_dwell_remaining - cycles) as u64
            } else {
                0
            },
            ..self
        }
    }

    /// The radio after a write of the calibration register.
    pub open spec fn txdc_written(self) -> Self {
        WifiState { txdc_armed: true, ..self }
    }

    /// The calibration register, which stores `stored`, as read.
    pub open spec fn txdc_value(self, stored: u32) -> u32 {
        if self.txdc_armed {
            stored | TXDC_DONE_BIT
        } else {
            stored
        }
    }

    pub open spec fn after_txdc_read(self) -> Self {
        WifiState { txdc_armed: false, ..self }
    }

    /// The radio after a scan starts; a running scan starts over.
    pub open spec fn scan_begun(self) -> Self {
        WifiState {
            scan_armed: true,
            scan_dwell_remaining: SCAN_DWELL_TICKS,
            scan_done_pending: false,
            ..self
        }
    }

    /// A scan has run its time and has not been reported.
    pub open spec fn scan_complete(self) -> bool {
        self.scan_dwell_remaining == 0 && !self.scan_done_pending && self.scan_armed
    }

    /// The radio after the completion is asked for.
    pub open spec fn after_scan_complete(self) -> Self {
        if self.scan_complete() {
            WifiState { scan_armed: false, scan_done_pending: true, ..self }
        } else {
            self
        }
    }
}

/// The WiFi radio.
pub struct Wifi {
    fe: RegStore,
    fe2: RegStore,
    bb: RegStore,
    nrx: RegStore,
    mac: RegStore,
    mac_ctrl: RegStore,
    wdev: RegStore,
    mac_ctrl_armed: bool,
    txdc_armed: bool,
    now: u64,
    scan_armed: bool,
    scan_dwell_remaining: u64,
    scan_done_pending: bool,
}

impl View for Wifi {
    type V = WifiState;

    closed spec fn view(&self) -> WifiState {
        WifiState {
            fe: self.fe@,
            fe2: self.fe2@,
            bb: self.bb@,
            nrx: self.nrx@,
            mac: self.mac@,
            mac_ctrl: self.mac_ctrl@,
            wdev: self.wdev@,
            mac_ctrl_armed: self.mac_ctrl_armed,
            txdc_armed: self.txdc_armed,
            now: self.now,
            scan_armed: self.scan_armed,
            scan_dwell_remaining: self.scan_dwell_remaining,
            scan_done_pending: self.scan_done_pending,
        }
    }
}

impl Default for Wifi {
    fn default() -> (w: Self)
        ensures
            w@ == WifiState::reset(),
    {
        Self::new()
    }
}

impl Wifi {
    pub fn new() -> (w: Self)
        ensures
            w@ == WifiState::reset(),
    {
        Wifi {
            fe: RegStore::new(0x1000),
            fe2: RegStore::new(0x1000),
            bb: RegStore::new(0x1000),
            nrx: RegStore::new(0x1000),
            mac: RegStore::new(0x1000),
            mac_ctrl: RegStore::new(0x1000),
            wdev: RegStore::new(0x1000),
            mac_ctrl_armed: false,
            txdc_armed: false,
            now: 0,
            scan_armed: false,
            scan_dwell_remaining: 0,
            scan_done_pending: false,
        }
    }

    /// Advance the radio's clock and a running scan.
    pub fn tick(&mut self, cycles: u64)
        ensures
            final(self)@ == old(self)@.ticked(cycles),
    {
        self.now = self.now.wrapping_add(cycles);
        self.scan_dwell_remaining = self.scan_dwell_remaining.saturating_sub(cycles);
    }

    /// Start a scan.
    pub fn wifi_scan_begin(&mut self)
        ensures
            final(self)@ == old(self)@.scan_begun(),
    {
        self.scan_armed = true;
        self.scan_dwell_remaining = SCAN_DWELL_TICKS;
        self.scan_done_pending = false;
    }

    /// True once per scan, when it has run its time.
    pub fn scan_tick_complete(&mut self) -> (r: bool)
        ensures
            r == old(self)@.scan_complete(),
            final(self)@ == old(self)@.after_scan_complete(),
    {
        if self.scan_dwell_remaining == 0 && !self.scan_done_pending && self.scan_armed {
            self.scan_armed = false;
            self.scan_done_pending = true;
            return true;
        }
        false
    }

    /// A write of the calibration register arms the done report, whatever is
    /// written.
    pub fn txdc_write(&mut self, _value: u32)
        ensures
            final(self)@ == old(self)@.txdc_written(),
    {
        self.txdc_armed = true;
    }

    /// Read of the calibration register that stores `stored`: reports done once
    /// per arming.
    pub fn txdc_read(&mut self, stored: u32) -> (v: u32)
        ensures
            v == old(self)@.txdc_value(stored),
            final(self)@ == old(self)@.after_txdc_read(),
    {
        if self.txdc_armed {
            self.txdc_armed = false;
            stored | TXDC_DONE_BIT
        } else {
            stored
        }
    }

    /// Word at `off` of the page at `base`; 0 if there is no such page.
    fn page_word(&self, base: u32, off: u32) -> (v: u32)
        ensures
            v == crate::regstore::stored(self@.page(base), off),
    {
        match base {
            FE_BASE => self.fe.read32(off),
            FE2_BASE => self.fe2.read32(off),
            BB_BASE => self.bb.read32(off),
            NRX_BASE => self.nrx.read32(off),
            WIFI_MAC_BASE => self.mac.read32(off),
            WIFI_MAC_CTRL_BASE => self.mac_ctrl.read32(off),
            WDEV_BASE => self.wdev.read32(off),
            _ => 0,
        }
    }

    /// Read a register of the page at `base`.
    pub fn read32(&self, base: u32, off: u32) -> (v: u32)
        ensures
            v == self@.read(base, off),
    {
        let v: u32 = self.page_word(base, off);
        if base == FE_BASE && off == FE_IQ_EST_DONE_OFF {
            v | FE_IQ_EST_DONE_BITS
        } else if base == WIFI_MAC_CTRL_BASE && off == MAC_CTRL_READY_OFF && self.mac_ctrl_armed {
            v | MAC_CTRL_READY_BIT
        } else if base == WIFI_MAC_BASE && off == MAC_REV_OFF {
            v | MAC_REV_VAL
        } else {
            v
        }
    }

    /// Write a register of the page at `base`.
    pub fn write32(&mut self, base: u32, off: u32, value: u32)
        ensures
            final(self)@ == old(self)@.written(base, off, value),
    {
        match base {
            FE_BASE => self.fe.write32(off, value),
            FE2_BASE => self.fe2.write32(off, value),
            BB_BASE => self.bb.write32(off, value),
            NRX_BASE => self.nrx.write32(off, value),
            WIFI_MAC_BASE => self.mac.write32(off, value),
            WIFI_MAC_CTRL_BASE => {
                self.mac_ctrl.write32(off, value);
                if off == MAC_CTRL_READY_OFF {
                    self.mac_ctrl_armed = true;
                }
            },
            WDEV_BASE => self.wdev.write32(off, value),
            _ => {},
        }
    }
}

/// A scan reports its completion exactly once, and not before its time is up.
pub proof fn law_scan_reports_once(w: WifiState, cycles: u64)
    ensures
        w.scan_begun().ticked(cycles).scan_complete() <==> cycles >= SCAN_DWELL_TICKS,
        !w.after_scan_complete().scan_complete(),
{
}

/// The calibration reports done on the first read after a write, however much
/// time passes between, and not again before the next write.
pub proof fn law_calibration_reports_once(w: WifiState, stored: u32, cycles: u64)
    ensures
        w.txdc_written().ticked(cycles).txdc_value(stored) & TXDC_DONE_BIT == TXDC_DONE_BIT,
        w.after_txdc_read().ticked(cycles).txdc_value(stored) == stored,
{
    crate::bits::lemma_or_sets(stored, TXDC_DONE_BIT);
}

/// The polled status bits read set whatever is stored.
pub proof fn law_status_bits(w: WifiState, v: u32)
    ensures
        w.read(FE_BASE, FE_IQ_EST_DONE_OFF) & FE_IQ_EST_DONE_BITS == FE_IQ_EST_DONE_BITS,
        w.written(WIFI_MAC_CTRL_BASE, MAC_CTRL_READY_OFF, v).read(
            WIFI_MAC_CTRL_BASE,
            MAC_CTRL_READY_OFF,
        ) & MAC_CTRL_READY_BIT == MAC_CTRL_READY_BIT,
{
    let s = w.written(WIFI_MAC_CTRL_BASE, MAC_CTRL_READY_OFF, v);
    crate::bits::lemma_or_sets(crate::regstore::stored(w.fe, FE_IQ_EST_DONE_OFF), FE_IQ_EST_DONE_BITS);
    crate::bits::lemma_or_sets(crate::regstore::stored(s.mac_ctrl, MAC_CTRL_READY_OFF), MAC_CTRL_READY_BIT);
}

} // verus!
