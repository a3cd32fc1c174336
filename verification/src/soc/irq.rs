//! Interrupt sources, resets, and the wake sources of sleep.

use super::{Soc, SocState};
use crate::memory::Place;
use crate::timg::{TimgState, INT_T0, INT_T1, INT_WDT};
use crate::twai::TWAI_INTR_SOURCE;
use crate::uart::UartState;
use crate::uhci::UHCI0_INTR_SOURCE;
use crate::usb_otg::USB_OTG_INTR_SOURCE;
use crate::usb_serial_jtag::USB_SERIAL_JTAG_INTR_SOURCE;
use vstd::prelude::*;

verus! {

broadcast use crate::soc::sizes::lemma_sized;

/// Wake causes; also the enable bit of each wake source.
pub const CAUSE_EXT0: u32 = 0x1;

pub const CAUSE_EXT1: u32 = 0x2;

pub const CAUSE_GPIO: u32 = 0x4;

pub const CAUSE_TIMER: u32 = 0x8;

pub const CAUSE_UART0: u32 = 0x40;

pub const CAUSE_UART1: u32 = 0x80;

pub const CAUSE_TOUCH: u32 = 0x100;

pub const CAUSE_ULP: u32 = 0x200;

pub const CAUSE_COCPU: u32 = 0x800;

pub const CAUSE_TRAP: u32 = 0x2000;

/// Interrupt sources of the blocks here, and the cross-core ones (79 to 82).
pub const OWN_SOURCES: u128 = 0x0000_0001_0007_8000_0EFC_0060_3860_4000;

/// Pads that can wake the chip.
pub const RTC_PADS: u32 = 22;

/// A sleep request, with the wake configuration at its entry.
pub struct SleepEntry {
    /// Requested duration in slow-clock ticks.
    pub target: u64,
    /// Deep sleep; else light sleep.
    pub deep: bool,
    /// Enabled wake sources.
    pub ena: u32,
    /// A wake time has been programmed.
    pub timer_written: bool,
    /// Pad watched by EXT0, and the levels that EXT0 and EXT1 wait for.
    pub ext0_pad: u32,
    pub ext0_level: u32,
    pub ext1_level: u32,
    /// Pads watched by EXT1.
    pub ext1_mask: u32,
    /// Pad configuration: bit 10 enables waking, bits 9:7 give the condition.
    pub pin_cfg: [u32; 22],
}

/// Level of an RTC pad in a readback word.
pub open spec fn pad_level(pads: u32, pad: u32) -> u32 {
    if pad < RTC_PADS {
        (pads >> pad) & 1
    } else {
        0
    }
}

/// EXT1 pads below `n` that are at the awaited level.
pub open spec fn ext1_trigger(pads: u32, mask: u32, level: u32, n: nat) -> u32
    decreases n,
{
    if n == 0 {
        0
    } else {
        let t = ext1_trigger(pads, mask, level, (n - 1) as nat);
        let pad = (n - 1) as u32;
        if mask & (1u32 << pad) != 0 && pad_level(pads, pad) == level {
            t | (1u32 << pad)
        } else {
            t
        }
    }
}

/// EXT1 wakes: on any watched pad that is high, or when all watched pads are
/// low.
pub open spec fn ext1_fires(mask: u32, level: u32, trigger: u32) -> bool {
    if level == 1 {
        trigger != 0
    } else {
        mask != 0 && trigger == mask & 0x3F_FFFF
    }
}

/// The pad with configuration `cfg` wakes at level `level`. An edge condition
/// is judged by the level that follows the edge.
pub open spec fn pin_wakes(cfg: u32, level: u32) -> bool {
    let kind = (cfg >> 7) & 7;
    cfg & 0x400 != 0 && (if kind == 1 || kind == 5 {
        level == 1
    } else if kind == 2 || kind == 4 {
        level == 0
    } else {
        kind == 3
    })
}

/// Some pad below `n` wakes.
pub open spec fn any_pin_wakes(pads: u32, cfg: Seq<u32>, n: nat) -> bool {
    exists|i: int| 0 <= i < n && #[trigger] pin_wakes(cfg[i], pad_level(pads, i as u32))
}

/// `bit` where `on`, else nothing.
pub open spec fn when(on: bool, bit: u32) -> u32 {
    if on {
        bit
    } else {
        0
    }
}

/// Source bit `n` where `on`, else nothing.
pub open spec fn source(on: bool, n: u32) -> u128 {
    if on {
        1u128 << n
    } else {
        0
    }
}

/// What a timer group raises: its two timers and its watchdog.
pub open spec fn timg_raised(t: TimgState) -> (bool, bool, bool) {
    (t.int_st() & INT_T0 != 0, t.int_st() & INT_T1 != 0, t.int_st() & INT_WDT != 0)
}

/// Sources put together from those of outside blocks, the UARTs, the timer
/// groups, the system timer, the SPI buses and TWAI, and the USB blocks and the
/// UHCI.
#[verifier::opaque]
pub open spec fn joined(
    outside: u128,
    u: (bool, bool, bool),
    a: (bool, bool, bool),
    b: (bool, bool, bool),
    t: (bool, bool, bool),
    p: (bool, bool, bool),
    o: (bool, bool, bool),
) -> u128 {
    outside | source(u.0, 27) | source(u.1, 28) | source(u.2, 29) | (source(a.0, 50) | source(
        a.1,
        51,
    ) | source(a.2, 52)) | (source(b.0, 53) | source(b.1, 54) | source(b.2, 55)) | source(t.0, 57)
        | source(t.1, 58) | source(t.2, 59) | source(p.0, 21) | source(p.1, 22) | source(
        p.2,
        TWAI_INTR_SOURCE,
    ) | source(o.0, USB_OTG_INTR_SOURCE) | source(o.1, UHCI0_INTR_SOURCE) | source(
        o.2,
        USB_SERIAL_JTAG_INTR_SOURCE,
    )
}

impl SocState {
    /// Interrupt sources that are up, but for the cross-core ones.
    pub open spec fn sources(self) -> u128 {
        joined(
            self.ext_src,
            (self.uart0.int_st() != 0, self.uart1.int_st() != 0, self.uart2.int_st() != 0),
            timg_raised(self.timg0),
            timg_raised(self.timg1),
            (
                self.systimer.int_st() & 1 != 0,
                self.systimer.int_st() & 2 != 0,
                self.systimer.int_st() & 4 != 0,
            ),
            (self.spi2.int_st() != 0, self.spi3.int_st() != 0, self.twai.int_st() != 0),
            (
                self.otg.int_pending(),
                self.uhci.int_raw & self.uhci.int_ena != 0,
                self.usb.int_st() != 0,
            ),
        )
    }

    /// Sources as the cores see them: scanned once, then kept until a tick, a
    /// register write or received input may have changed them.
    pub open spec fn seen_sources(self) -> u128 {
        if self.src_valid {
            self.cached_src
        } else {
            self.sources()
        }
    }

    /// Sources for core `cpu`, with its cross-core requests.
    pub open spec fn cpu_sources(self, cpu: int) -> u128 {
        self.seen_sources() | source(self.from_cpu[cpu] & 1 != 0, (79 + cpu) as u32) | source(
            self.from_cpu[2 + cpu] & 1 != 0,
            (81 + cpu) as u32,
        )
    }

    pub open spec fn after_scan(self) -> SocState {
        SocState { cached_src: self.seen_sources(), src_valid: true, ..self }
    }

    /// The sleep is timed.
    pub open spec fn timer_armed(e: SleepEntry) -> bool {
        e.ena & CAUSE_TIMER != 0 || e.timer_written
    }

    /// EXT1 pads at the awaited level at sleep entry.
    pub open spec fn entry_ext1(self, e: SleepEntry) -> u32 {
        ext1_trigger(self.readback(), e.ext1_mask, e.ext1_level, 22)
    }

    pub open spec fn entry_ext1_fires(self, e: SleepEntry) -> bool {
        e.ena & CAUSE_EXT1 != 0 && ext1_fires(e.ext1_mask, e.ext1_level, self.entry_ext1(e))
    }

    /// Wake causes met at sleep entry. Pads and UARTs wake light sleep; the
    /// UARTs do so on a received byte or on an edge seen before the entry.
    pub open spec fn entry_cause(self, e: SleepEntry) -> u32 {
        let pads = self.readback();
        when(
            e.ena & CAUSE_EXT0 != 0 && pad_level(pads, e.ext0_pad) == e.ext0_level,
            CAUSE_EXT0,
        ) | when(self.entry_ext1_fires(e), CAUSE_EXT1) | when(
            !e.deep && e.ena & CAUSE_GPIO != 0 && any_pin_wakes(pads, e.pin_cfg@, 22),
            CAUSE_GPIO,
        ) | when(
            e.ena & CAUSE_UART0 != 0 && (self.uart0.rx.len() > 0 || self.uart0.rx_edge),
            CAUSE_UART0,
        ) | when(
            e.ena & CAUSE_UART1 != 0 && (self.uart1.rx.len() > 0 || self.uart1.rx_edge),
            CAUSE_UART1,
        ) | when(SocState::timer_armed(e), CAUSE_TIMER) | when(
            e.ena & CAUSE_TOUCH != 0 && self.touch.any_touched(),
            CAUSE_TOUCH,
        )
    }

    /// Causes that a halt of the running coprocessor would be.
    pub open spec fn entry_watch(self, e: SleepEntry) -> u32 {
        if self.ulp.is_running() {
            when(e.ena & CAUSE_ULP != 0, CAUSE_ULP) | when(e.ena & CAUSE_COCPU != 0, CAUSE_COCPU)
                | when(e.ena & CAUSE_TRAP != 0, CAUSE_TRAP)
        } else {
            0
        }
    }

    /// Ticks to sleep: the requested time, or one tick where a wake condition
    /// holds already, or until an event.
    pub open spec fn entry_budget(self, e: SleepEntry) -> u64 {
        if SocState::timer_armed(e) {
            e.target
        } else if self.entry_cause(e) != 0 {
            1
        } else {
            u64::MAX
        }
    }

    /// The chip after a sleep request has been taken.
    pub open spec fn after_sleep_entry(self, e: SleepEntry) -> SocState {
        SocState {
            uart0: UartState { rx_edge: false, ..self.uart0 },
            uart1: UartState { rx_edge: false, ..self.uart1 },
            sleep_cause: self.entry_cause(e),
            sleep_ext1: if self.entry_ext1_fires(e) {
                self.entry_ext1(e)
            } else {
                0
            },
            sleep_ulp_watch: self.entry_watch(e),
            ..self.after_readback()
        }
    }
}

fn source_bit(on: bool, n: u32) -> (r: u128)
    requires
        n < 128,
    ensures
        r == source(on, n),
{
    if on {
        1u128 << n
    } else {
        0
    }
}

fn bit_when(on: bool, bit: u32) -> (r: u32)
    ensures
        r == when(on, bit),
{
    if on {
        bit
    } else {
        0
    }
}

fn level_of(pads: u32, pad: u32) -> (level: u32)
    ensures
        level == pad_level(pads, pad),
{
    if pad < RTC_PADS {
        (pads >> pad) & 1
    } else {
        0
    }
}

fn find_ext1(pads: u32, mask: u32, level: u32) -> (t: u32)
    ensures
        t == ext1_trigger(pads, mask, level, 22),
{
    let mut t: u32 = 0;
    let mut pad: u32 = 0;
    while pad < 22
        invariant
            pad <= 22,
            t == ext1_trigger(pads, mask, level, pad as nat),
        decreases 22 - pad,
    {
        if mask & (1u32 << pad) != 0 && level_of(pads, pad) == level {
            t = t | (1u32 << pad);
        }
        pad = pad + 1;
    }
    t
}

fn wakes(cfg: u32, level: u32) -> (r: bool)
    ensures
        r == pin_wakes(cfg, level),
{
    let kind: u32 = (cfg >> 7) & 7;
    if cfg & 0x400 == 0 {
        false
    } else if kind == 1 || kind == 5 {
        level == 1
    } else if kind == 2 || kind == 4 {
        level == 0
    } else {
        kind == 3
    }
}

fn find_pin(pads: u32, cfg: &[u32; 22]) -> (r: bool)
    ensures
        r == any_pin_wakes(pads, cfg@, 22),
{
    let mut i: u32 = 0;
    while i < 22
        invariant
            i <= 22,
            !any_pin_wakes(pads, cfg@, i as nat),
        decreases 22 - i,
    {
        if wakes(cfg[i as usize], level_of(pads, i)) {
            assert(pin_wakes(cfg@[i as int], pad_level(pads, (i as int) as u32)));
            return true;
        }
        i = i + 1;
    }
    false
}

impl Soc {
    /// Scan the blocks for raised interrupts.
    fn scan_peripheral_sources(&self) -> (src: u128)
        ensures
            src == self@.sources(),
    {
        reveal(joined);
        let t0: u32 = self.timg0.int_st();
        let t1: u32 = self.timg1.int_st();
        let st: u32 = self.systimer.int_st();
        let timers0: u128 = source_bit(t0 & INT_T0 != 0, 50) | source_bit(t0 & INT_T1 != 0, 51)
            | source_bit(t0 & INT_WDT != 0, 52);
        let timers1: u128 = source_bit(t1 & INT_T0 != 0, 53) | source_bit(t1 & INT_T1 != 0, 54)
            | source_bit(t1 & INT_WDT != 0, 55);
        self.ext_src | source_bit(self.uart0.int_st() != 0, 27) | source_bit(
            self.uart1.int_st() != 0,
            28,
        ) | source_bit(self.uart2.int_st() != 0, 29) | timers0 | timers1 | source_bit(
            st & 1 != 0,
            57,
        ) | source_bit(st & 2 != 0, 58) | source_bit(st & 4 != 0, 59) | source_bit(
            self.spi2.int_st() != 0,
            21,
        ) | source_bit(self.spi3.int_st() != 0, 22) | source_bit(
            self.twai.int_pending(),
            TWAI_INTR_SOURCE,
        ) | source_bit(self.otg.int_pending(), USB_OTG_INTR_SOURCE) | source_bit(
            self.uhci.int_st(),
            UHCI0_INTR_SOURCE,
        ) | source_bit(self.usb.int_pending(), USB_SERIAL_JTAG_INTR_SOURCE)
    }

    /// Interrupt sources for core `cpu`, to be resolved by its interrupt matrix.
    pub fn int_sources(&mut self, cpu: usize) -> (src: u128)
        requires
            old(self)@.wf(),
            cpu < 2,
        ensures
            src == old(self)@.cpu_sources(cpu as int),
            final(self)@ == old(self)@.after_scan(),
            final(self)@.wf(),
    {
        reveal(SocState::wf);
        if !self.src_valid {
            self.cached_src = self.scan_peripheral_sources();
            self.src_valid = true;
        }
        assert(self@ =~= old(self)@.after_scan());
        self.cached_src | source_bit(self.from_cpu[cpu] & 1 != 0, 79 + cpu as u32) | source_bit(
            self.from_cpu[2 + cpu] & 1 != 0,
            81 + cpu as u32,
        )
    }

    /// A watchdog has asked for a reset; the first group that did is consumed.
    pub fn consume_reset(&mut self) -> (r: bool)
        requires
            old(self)@.wf(),
        ensures
            r == (old(self)@.timg0.wdt_reset || old(self)@.timg1.wdt_reset),
            final(self)@ == if old(self)@.timg0.wdt_reset {
                SocState {
                    timg0: TimgState { wdt_reset: false, ..old(self)@.timg0 },
                    ..old(self)@
                }
            } else {
                SocState {
                    timg1: TimgState { wdt_reset: false, ..old(self)@.timg1 },
                    ..old(self)@
                }
            },
            final(self)@.wf(),
    {
        reveal(SocState::wf);
        let first = self.timg0.consume_reset();
        if first {
            return true;
        }
        assert(self@.timg0 == old(self)@.timg0);
        self.timg1.consume_reset()
    }

    /// Take a sleep request: find the wake causes met at entry, and how long to
    /// sleep.
    pub fn consume_sleep_request(&mut self, e: SleepEntry) -> (r: (u64, bool))
        requires
            old(self)@.wf(),
        ensures
            r == (old(self)@.entry_budget(e), e.deep),
            final(self)@ == old(self)@.after_sleep_entry(e),
            final(self)@.wf(),
    {
        reveal(SocState::wf);
        let timer = e.ena & CAUSE_TIMER != 0 || e.timer_written;
        let pads: u32 = self.gpio_in_readback();
        let trigger: u32 = find_ext1(pads, e.ext1_mask, e.ext1_level);
        let ext1 = e.ena & CAUSE_EXT1 != 0 && (if e.ext1_level == 1 {
            trigger != 0
        } else {
            e.ext1_mask != 0 && trigger == e.ext1_mask & 0x3F_FFFF
        });
        let gpio = !e.deep && e.ena & CAUSE_GPIO != 0 && find_pin(pads, &e.pin_cfg);
        let edge0 = self.uart0.take_rx_edge();
        let edge1 = self.uart1.take_rx_edge();
        let cause: u32 = bit_when(
            e.ena & CAUSE_EXT0 != 0 && level_of(pads, e.ext0_pad) == e.ext0_level,
            CAUSE_EXT0,
        ) | bit_when(ext1, CAUSE_EXT1) | bit_when(gpio, CAUSE_GPIO) | bit_when(
            e.ena & CAUSE_UART0 != 0 && (self.uart0.rx_pending() || edge0),
            CAUSE_UART0,
        ) | bit_when(
            e.ena & CAUSE_UART1 != 0 && (self.uart1.rx_pending() || edge1),
            CAUSE_UART1,
        ) | bit_when(timer, CAUSE_TIMER) | bit_when(
            e.ena & CAUSE_TOUCH != 0 && self.touch.any_touched(),
            CAUSE_TOUCH,
        );
        self.sleep_ulp_watch = if self.ulp.is_running() {
            bit_when(e.ena & CAUSE_ULP != 0, CAUSE_ULP) | bit_when(
                e.ena & CAUSE_COCPU != 0,
                CAUSE_COCPU,
            ) | bit_when(e.ena & CAUSE_TRAP != 0, CAUSE_TRAP)
        } else {
            0
        };
        self.sleep_cause = cause;
        self.sleep_ext1 = if ext1 {
            trigger
        } else {
            0
        };
        assert(self@ =~= old(self)@.after_sleep_entry(e));
        let budget: u64 = if timer {
            e.target
        } else if cause != 0 {
            1
        } else {
            u64::MAX
        };
        (budget, e.deep)
    }

    /// Wake causes found at sleep entry, or since.
    pub fn take_sleep_cause(&mut self) -> (cause: u32)
        requires
            old(self)@.wf(),
        ensures
            cause == old(self)@.sleep_cause,
            final(self)@ == (SocState { sleep_cause: 0, ..old(self)@ }),
            final(self)@.wf(),
    {
        reveal(SocState::wf);
        let cause: u32 = self.sleep_cause;
        self.sleep_cause = 0;
        assert(self@ =~= SocState { sleep_cause: 0, ..old(self)@ });
        cause
    }

    /// EXT1 pads that woke the chip.
    pub fn take_sleep_ext1(&mut self) -> (pads: u32)
        requires
            old(self)@.wf(),
        ensures
            pads == old(self)@.sleep_ext1,
            final(self)@ == (SocState { sleep_ext1: 0, ..old(self)@ }),
            final(self)@.wf(),
    {
        reveal(SocState::wf);
        let pads: u32 = self.sleep_ext1;
        self.sleep_ext1 = 0;
        assert(self@ =~= SocState { sleep_ext1: 0, ..old(self)@ });
        pads
    }

    /// The watched coprocessor has halted; told once.
    pub fn sleep_ulp_fired(&mut self) -> (r: bool)
        requires
            old(self)@.wf(),
        ensures
            r == (old(self)@.sleep_ulp_watch != 0 && !old(self)@.ulp.is_running()),
            final(self)@ == if r {
                SocState {
                    sleep_cause: old(self)@.sleep_cause | old(self)@.sleep_ulp_watch,
                    sleep_ulp_watch: 0,
                    ..old(self)@
                }
            } else {
                old(self)@
            },
            final(self)@.wf(),
    {
        reveal(SocState::wf);
        if self.sleep_ulp_watch != 0 && !self.ulp.is_running() {
            self.sleep_cause = self.sleep_cause | self.sleep_ulp_watch;
            self.sleep_ulp_watch = 0;
            true
        } else {
            false
        }
    }
}

/// A scan tells of each block whether it raises its interrupt, and nothing else:
/// a source of a block here is up if and only if that block raises it, a source
/// of an outside block if and only if it was handed in, and the cross-core
/// sources are never among them.
#[verifier::spinoff_prover]
#[verifier::rlimit(80)]
pub proof fn law_sources_follow_their_blocks(s: SocState)
    requires
        s.wf(),
    ensures
        ({
            let src = s.sources();
            &&& (src >> 27) & 1 == 1 <==> s.uart0.int_st() != 0
            &&& (src >> 28) & 1 == 1 <==> s.uart1.int_st() != 0
            &&& (src >> 29) & 1 == 1 <==> s.uart2.int_st() != 0
            &&& (src >> 50) & 1 == 1 <==> s.timg0.int_st() & INT_T0 != 0
            &&& (src >> 51) & 1 == 1 <==> s.timg0.int_st() & INT_T1 != 0
            &&& (src >> 52) & 1 == 1 <==> s.timg0.int_st() & INT_WDT != 0
            &&& (src >> 53) & 1 == 1 <==> s.timg1.int_st() & INT_T0 != 0
            &&& (src >> 54) & 1 == 1 <==> s.timg1.int_st() & INT_T1 != 0
            &&& (src >> 55) & 1 == 1 <==> s.timg1.int_st() & INT_WDT != 0
            &&& (src >> 57) & 1 == 1 <==> s.systimer.int_st() & 1 != 0
            &&& (src >> 58) & 1 == 1 <==> s.systimer.int_st() & 2 != 0
            &&& (src >> 59) & 1 == 1 <==> s.systimer.int_st() & 4 != 0
            &&& (src >> 21) & 1 == 1 <==> s.spi2.int_st() != 0
            &&& (src >> 22) & 1 == 1 <==> s.spi3.int_st() != 0
            &&& (src >> 37) & 1 == 1 <==> s.twai.int_st() != 0
            &&& (src >> 38) & 1 == 1 <==> s.otg.int_pending()
            &&& (src >> 14) & 1 == 1 <==> s.uhci.int_raw & s.uhci.int_ena != 0
            &&& (src >> 96) & 1 == 1 <==> s.usb.int_st() != 0
            &&& (src >> 79) & 0xF == 0
            &&& src & !OWN_SOURCES == s.ext_src
        }),
{
    lemma_outside_sources(s);
    lemma_source_bits(
        s.ext_src,
        (s.uart0.int_st() != 0, s.uart1.int_st() != 0, s.uart2.int_st() != 0),
        timg_raised(s.timg0),
        timg_raised(s.timg1),
        (
            s.systimer.int_st() & 1 != 0,
            s.systimer.int_st() & 2 != 0,
            s.systimer.int_st() & 4 != 0,
        ),
        (s.spi2.int_st() != 0, s.spi3.int_st() != 0, s.twai.int_st() != 0),
        (s.otg.int_pending(), s.uhci.int_raw & s.uhci.int_ena != 0, s.usb.int_st() != 0),
    );
}

proof fn lemma_outside_sources(s: SocState)
    requires
        s.wf(),
    ensures
        s.ext_src & OWN_SOURCES == 0,
{
    reveal(SocState::wf);
}

/// Bits of the sources that are put together from single ones.
proof fn lemma_source_bits(
    e: u128,
    u: (bool, bool, bool),
    a: (bool, bool, bool),
    b: (bool, bool, bool),
    t: (bool, bool, bool),
    p: (bool, bool, bool),
    o: (bool, bool, bool),
)
    requires
        e & OWN_SOURCES == 0,
    ensures
        ({
            let src = joined(e, u, a, b, t, p, o);
            &&& (src >> 27) & 1 == 1 <==> u.0
            &&& (src >> 28) & 1 == 1 <==> u.1
            &&& (src >> 29) & 1 == 1 <==> u.2
            &&& (src >> 50) & 1 == 1 <==> a.0
            &&& (src >> 51) & 1 == 1 <==> a.1
            &&& (src >> 52) & 1 == 1 <==> a.2
            &&& (src >> 53) & 1 == 1 <==> b.0
            &&& (src >> 54) & 1 == 1 <==> b.1
            &&& (src >> 55) & 1 == 1 <==> b.2
            &&& (src >> 57) & 1 == 1 <==> t.0
            &&& (src >> 58) & 1 == 1 <==> t.1
            &&& (src >> 59) & 1 == 1 <==> t.2
            &&& (src >> 21) & 1 == 1 <==> p.0
            &&& (src >> 22) & 1 == 1 <==> p.1
            &&& (src >> 37) & 1 == 1 <==> p.2
            &&& (src >> 38) & 1 == 1 <==> o.0
            &&& (src >> 14) & 1 == 1 <==> o.1
            &&& (src >> 96) & 1 == 1 <==> o.2
            &&& (src >> 79) & 0xF == 0
            &&& src & !OWN_SOURCES == e
        }),
{
    reveal(joined);
    let src = joined(e, u, a, b, t, p, o);
    let (u0, u1, u2) = u;
    let (a0, a1, a2) = a;
    let (b0, b1, b2) = b;
    let (t0, t1, t2) = t;
    let (p2, p3, tw) = p;
    let (ot, uh, us) = o;
    assert(((src >> 27) & 1 == 1) == u0 && ((src >> 28) & 1 == 1) == u1 && ((src >> 29) & 1 == 1)
        == u2 && ((src >> 50) & 1 == 1) == a0 && ((src >> 51) & 1 == 1) == a1 && ((src >> 52) & 1
        == 1) == a2 && ((src >> 53) & 1 == 1) == b0 && ((src >> 54) & 1 == 1) == b1 && ((src >> 55)
        & 1 == 1) == b2 && ((src >> 57) & 1 == 1) == t0 && ((src >> 58) & 1 == 1) == t1 && ((src
        >> 59) & 1 == 1) == t2 && ((src >> 21) & 1 == 1) == p2 && ((src >> 22) & 1 == 1) == p3 && ((
    src >> 37) & 1 == 1) == tw && ((src >> 38) & 1 == 1) == ot && ((src >> 14) & 1 == 1) == uh && ((
    src >> 96) & 1 == 1) == us && (src >> 79) & 0xF == 0 && src & !OWN_SOURCES == e) by (bit_vector)
        requires
            e & OWN_SOURCES == 0,
            src == e | source(u0, 27) | source(u1, 28) | source(u2, 29) | (source(a0, 50) | source(
                a1,
                51,
            ) | source(a2, 52)) | (source(b0, 53) | source(b1, 54) | source(b2, 55)) | source(t0, 57)
                | source(t1, 58) | source(t2, 59) | source(p2, 21) | source(p3, 22) | source(tw, 37)
                | source(ot, 38) | source(uh, 14) | source(us, 96),
    ;
}

/// Scanned sources hold for both cores, however often they are looked at; a tick
/// and a register write each make them be scanned anew.
pub proof fn law_sources_hold_until_changed(s: SocState, t: SocState, n: u64, a: u32, v: u32)
    requires
        t.cached_src == s.after_scan().cached_src,
        t.src_valid == s.after_scan().src_valid,
        crate::memory::place(crate::memory::remapped(a)) == Place::Apb,
    ensures
        t.seen_sources() == s.seen_sources(),
        t.ticked(n).seen_sources() == t.ticked(n).sources(),
        t.write32(a, v).seen_sources() == t.write32(a, v).sources(),
{
    lemma_tick_invalidates(t.tick_begun(), n as nat);
    reveal(SocState::write32);
}

proof fn lemma_tick_invalidates(s: SocState, n: nat)
    requires
        !s.src_valid,
    ensures
        !s.cycles(n).src_valid,
    decreases n,
{
    if n > 0 {
        lemma_tick_invalidates(s, (n - 1) as nat);
    }
}

/// A sleep without any wake source enabled and without a wake time has no cause
/// at entry and lasts until an event.
pub proof fn law_sleep_without_sources(s: SocState, e: SleepEntry)
    requires
        e.ena == 0,
        !e.timer_written,
    ensures
        s.entry_cause(e) == 0,
        s.entry_watch(e) == 0,
        s.entry_budget(e) == u64::MAX,
{
    crate::bits::lemma_constants();
}

/// Bit `k` of a word.
pub open spec fn bit_set(w: u32, k: u32) -> bool {
    (w >> k) & 1 == 1
}

/// Causes put together show each on its own.
proof fn lemma_causes(a: bool, b: bool, c: bool, d: bool, e: bool, f: bool, g: bool)
    by (bit_vector)
    ensures
        ({
            let w = when(a, 0x1) | when(b, 0x2) | when(c, 0x4) | when(d, 0x40) | when(e, 0x80) | when(
                f,
                0x8,
            ) | when(g, 0x100);
            &&& bit_set(w, 0) == a
            &&& bit_set(w, 1) == b
            &&& bit_set(w, 2) == c
            &&& bit_set(w, 3) == f
            &&& bit_set(w, 6) == d
            &&& bit_set(w, 7) == e
            &&& bit_set(w, 8) == g
        }),
{
}

/// What wakes the chip at sleep entry, each cause in its bit and enabled by the same bit:
/// EXT0 where its pad has its level; the pads where one of them meets its condition, in
/// light sleep only; a UART where a byte waits or has come; the timer where it is enabled
/// or set; the touch sensor where a pad is touched.
pub proof fn law_wake_causes(s: SocState, e: SleepEntry)
    requires
        s.wf(),
        e.ext0_pad < 22,
    ensures
        ({
            let c = s.entry_cause(e);
            let rb = s.readback();
            &&& bit_set(c, 0) <==> bit_set(e.ena, 0) && (rb >> e.ext0_pad) & 1 == e.ext0_level
            &&& bit_set(c, 2) <==> !e.deep && bit_set(e.ena, 2) && exists|i: int|
                0 <= i < 22 && bit_set(#[trigger] e.pin_cfg@[i], 10) && ({
                    let kind = (e.pin_cfg@[i] / 0x80) % 8;
                    let high = bit_set(rb, i as u32);
                    (high && (kind == 1 || kind == 5)) || (!high && (kind == 2 || kind == 4)) || kind
                        == 3
                })
            &&& bit_set(c, 3) <==> bit_set(e.ena, 3) || e.timer_written
            &&& bit_set(c, 6) <==> bit_set(e.ena, 6) && (s.uart0.rx.len() > 0 || s.uart0.rx_edge)
            &&& bit_set(c, 7) <==> bit_set(e.ena, 7) && (s.uart1.rx.len() > 0 || s.uart1.rx_edge)
            &&& bit_set(c, 8) <==> bit_set(e.ena, 8) && exists|pad: int|
                1 <= pad <= 14 && (#[trigger] s.touch.injected[pad]) < s.touch.regs[pad + 1] % 0x40_0000
        }),
{
    reveal(SocState::wf);
    let rb = s.readback();
    crate::bits::lemma_fields(e.ena);
    let pins = any_pin_wakes(rb, e.pin_cfg@, 22);
    let touched = s.touch.any_touched();
    lemma_causes(
        e.ena & CAUSE_EXT0 != 0 && pad_level(rb, e.ext0_pad) == e.ext0_level,
        s.entry_ext1_fires(e),
        !e.deep && e.ena & CAUSE_GPIO != 0 && pins,
        e.ena & CAUSE_UART0 != 0 && (s.uart0.rx.len() > 0 || s.uart0.rx_edge),
        e.ena & CAUSE_UART1 != 0 && (s.uart1.rx.len() > 0 || s.uart1.rx_edge),
        SocState::timer_armed(e),
        e.ena & CAUSE_TOUCH != 0 && touched,
    );
    assert forall|i: int| 0 <= i < 22 implies pin_wakes(
        #[trigger] e.pin_cfg@[i],
        pad_level(rb, i as u32),
    ) == (bit_set(e.pin_cfg@[i], 10) && ({
        let kind = (e.pin_cfg@[i] / 0x80) % 8;
        let high = bit_set(rb, i as u32);
        (high && (kind == 1 || kind == 5)) || (!high && (kind == 2 || kind == 4)) || kind == 3
    })) by {
        crate::bits::lemma_fields(e.pin_cfg@[i]);
        crate::bits::lemma_bit_differs(rb, 0, i as u32);
    }
    if pins {
        let i = choose|i: int|
            0 <= i < 22 && #[trigger] pin_wakes(e.pin_cfg@[i], pad_level(rb, i as u32));
        assert(bit_set(e.pin_cfg@[i], 10));
    }
    assert forall|pad: int| 1 <= pad <= 14 implies s.touch.touched(pad) == (
    #[trigger] s.touch.injected[pad] < s.touch.regs[pad + 1] % 0x40_0000) by {
        crate::bits::lemma_fields(s.touch.regs[pad + 1]);
    }
    if touched {
        let pad = choose|pad: int| 1 <= pad <= 14 && #[trigger] s.touch.touched(pad);
        assert(s.touch.injected[pad] < s.touch.regs[pad + 1] % 0x40_0000);
    }
}

/// One more pad among those that EXT1 watches.
proof fn lemma_next_pad(t: u32, mask: u32, k: u32, below: u32, with: u32)
    by (bit_vector)
    requires
        k < 31,
        below == (1u32 << k) - 1,
        with == (1u32 << (k + 1)) - 1,
        t & !(mask & below) == 0,
    ensures
        mask & (1u32 << k) != 0 ==> (t | (1u32 << k)) & !(mask & with) == 0,
        mask & (1u32 << k) != 0 ==> ((t | (1u32 << k)) == mask & with <==> t == mask & below),
        mask & (1u32 << k) != 0 ==> t != mask & with,
        t & !(mask & with) == 0,
        mask & (1u32 << k) == 0 ==> (t == mask & with <==> t == mask & below),
        t | (1u32 << k) != 0,
        mask & (1u32 << k) != 0 <==> bit_set(mask, k),
        k == 0 ==> below == 0,
        k == 21 ==> with == 0x3F_FFFF,
        with < 0x8000_0000,
        0u32 & !(mask & 0) == 0,
        mask & 0 == 0,
{
}

/// Bit of pad `i` in a mask.
pub open spec fn pad_bit(mask: u32, i: int) -> bool {
    bit_set(mask, i as u32)
}

/// The watched pads below `n` at the awaited level.
proof fn lemma_ext1(pads: u32, mask: u32, level: u32, n: nat, below: u32)
    requires
        n <= 22,
        below == if n == 0 {
            0u32
        } else {
            ((1u32 << (n as u32)) - 1) as u32
        },
    ensures
        ({
            let t = ext1_trigger(pads, mask, level, n);
            &&& t & !(mask & below) == 0
            &&& t != 0 <==> exists|i: int|
                0 <= i < n && #[trigger] pad_bit(mask, i) && (pads >> (i as u32)) & 1 == level
            &&& t == mask & below <==> forall|i: int|
                0 <= i < n && #[trigger] pad_bit(mask, i) ==> (pads >> (i as u32)) & 1
                    == level
        }),
    decreases n,
{
    if n == 0 {
        crate::bits::lemma_masks(mask, 0, 0);
        crate::bits::lemma_masks(!(mask & 0), 0, 0);
    } else {
        let k = (n - 1) as u32;
        crate::bits::lemma_set_bit(0, 0, k);
        crate::bits::lemma_set_bit(0, 0, n as u32);
        crate::bits::lemma_constants();
        let prev = if k == 0 {
            0u32
        } else {
            ((1u32 << k) - 1) as u32
        };
        lemma_ext1(pads, mask, level, (n - 1) as nat, prev);
        let t = ext1_trigger(pads, mask, level, (n - 1) as nat);
        lemma_next_pad(t, mask, k, prev, below);
        let m = n - 1;
        assert(m as u32 == k);
        let hit = pad_bit(mask, m) && (pads >> k) & 1 == level;
        let u = ext1_trigger(pads, mask, level, n);
        assert(u == if hit {
            t | (1u32 << k)
        } else {
            t
        });
        assert(t != 0 <==> exists|i: int|
            0 <= i < m && #[trigger] pad_bit(mask, i) && (pads >> (i as u32)) & 1 == level);
        if hit {
            assert(0 <= m < n && pad_bit(mask, m) && (pads >> (m as u32)) & 1 == level);
        } else if t != 0 {
            let i = choose|i: int|
                0 <= i < m && #[trigger] pad_bit(mask, i) && (pads >> (i as u32)) & 1 == level;
            assert(0 <= i < n && pad_bit(mask, i));
        }
        if u == mask & below {
            assert forall|i: int| 0 <= i < n && #[trigger] pad_bit(mask, i) implies (pads >> (
            i as u32)) & 1 == level by {
                if i == m {
                    assert(hit);
                }
            }
        }
        if forall|i: int|
            0 <= i < n && #[trigger] pad_bit(mask, i) ==> (pads >> (i as u32)) & 1 == level {
            assert(pad_bit(mask, m) ==> hit);
            assert(t == mask & prev);
        }
    }
}

/// EXT1 wakes, where enabled by bit 1: waiting for high, as soon as one of its pads is
/// high; waiting for low, once all of them are low and it has any.
pub proof fn law_ext1_wakes(s: SocState, e: SleepEntry)
    requires
        e.ext1_level <= 1,
        e.ext1_mask < 0x40_0000,
    ensures
        ({
            let rb = s.readback();
            &&& e.ext1_level == 1 ==> (s.entry_ext1_fires(e) <==> bit_set(e.ena, 1) && exists|i: int|
                0 <= i < 22 && #[trigger] pad_bit(e.ext1_mask, i) && bit_set(rb, i as u32))
            &&& e.ext1_level == 0 ==> (s.entry_ext1_fires(e) <==> bit_set(e.ena, 1) && e.ext1_mask
                != 0 && forall|i: int|
                0 <= i < 22 && #[trigger] pad_bit(e.ext1_mask, i) ==> !bit_set(
                    rb,
                    i as u32,
                ))
        }),
{
    let rb = s.readback();
    let m = e.ext1_mask;
    crate::bits::lemma_fields(e.ena);
    crate::bits::lemma_fields(m);
    crate::bits::lemma_constants();
    lemma_ext1(rb, m, e.ext1_level, 22, 0x3F_FFFF);
    assert forall|i: int| 0 <= i < 22 && #[trigger] pad_bit(m, i) implies ((rb >> (i as u32)) & 1
        == 0) == !bit_set(rb, i as u32) by {
        crate::bits::lemma_bit_differs(rb, 0, i as u32);
    }
}

} // verus!
