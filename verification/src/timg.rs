//! Timer groups (TIMG0 and TIMG1).
//!
//! Each group has two 64-bit timers, a main watchdog, the RTC slow-clock
//! calibration block and an interrupt block. Time advances by [`Timg::tick`]: an
//! enabled timer's counter moves once per `DIVIDER` cycles, up or down, and
//! reaching the alarm value raises the timer's interrupt and optionally reloads
//! the counter. `TnLO` reads the current low word, `TnHI` the high word latched
//! by a `TnUPDATE` write.
//!
//! The watchdog counts prescaled cycles since it was enabled or last fed. Each of
//! its four stages fires once, when the count reaches the sum of the holds up to
//! and including that stage: an interrupt or a reset request. Feeding or
//! disabling the watchdog restarts it. Its configuration can only be written
//! while the write-protect register holds the key.
//!
//! A calibration completes as soon as it is started.

use vstd::prelude::*;

verus! {

broadcast use crate::bits::lemma_and_le;

/// Words in the register block.
pub const REG_COUNT: usize = 42;

/// Timer register offsets; timer 1 is [`T1_OFF`] above timer 0.
pub const T0CONFIG: u32 = 0x00;

pub const T0LO: u32 = 0x04;

pub const T0HI: u32 = 0x08;

pub const T0UPDATE: u32 = 0x0C;

pub const T0ALARMLO: u32 = 0x10;

pub const T0ALARMHI: u32 = 0x14;

pub const T0LOADLO: u32 = 0x18;

pub const T0LOADHI: u32 = 0x1C;

pub const T0LOAD: u32 = 0x20;

pub const T1_OFF: u32 = 0x24;

pub const T1LO: u32 = 0x28;

pub const T1HI: u32 = 0x2C;

pub const T1UPDATE: u32 = 0x30;

pub const T1LOAD: u32 = 0x44;

pub const WDT_CONFIG0: u32 = 0x48;

pub const WDT_CONFIG1: u32 = 0x4C;

/// First of the four stage hold registers.
pub const WDT_CONFIG2: u32 = 0x50;

pub const WDT_CONFIG5: u32 = 0x5C;

pub const WDT_FEED: u32 = 0x60;

pub const WDT_WPROTECT: u32 = 0x64;

/// Write-protect key of the watchdog configuration.
pub const WDT_WKEY: u32 = 0x50D8_3AA1;

pub const WDT_EN: u32 = 1 << 31;

/// Shifts of the stage action fields in `WDT_CONFIG0`. Actions: 0 none,
/// 1 interrupt, 2 and 3 reset.
pub const WDT_STG_SHIFT: [u32; 4] = [29, 27, 25, 23];

pub const RTCCALICFG: u32 = 0x68;

pub const RTCCALICFG1: u32 = 0x6C;

pub const RTCCALICFG2: u32 = 0x80;

pub const CALI_START_CYCLING: u32 = 1 << 12;

/// Slow-clock select field.
pub const CALI_CLK_SEL: u32 = 0x6000;

pub const CALI_RDY: u32 = 1 << 15;

/// Slow-clock cycle count field.
pub const CALI_MAX: u32 = 0x7FFF_0000;

pub const CALI_START: u32 = 1 << 31;

/// Largest value of the 25-bit calibration result field.
pub const CALI_VALUE_MAX: u64 = 0x1FF_FFFF;

/// XTAL cycles per slow-clock cycle, by clock select.
pub const CALI_RATIO: [u64; 3] = [267, 1280, 1221];

pub const INT_ENA: u32 = 0x70;

pub const INT_RAW: u32 = 0x74;

pub const INT_ST: u32 = 0x78;

pub const INT_CLR: u32 = 0x7C;

pub const INT_T0: u32 = 1;

pub const INT_T1: u32 = 1 << 1;

pub const INT_WDT: u32 = 1 << 2;

pub const CFG_EN: u32 = 1 << 31;

pub const CFG_INCREASE: u32 = 1 << 30;

pub const CFG_AUTORELOAD: u32 = 1 << 29;

/// Clock divider field.
pub const CFG_DIVIDER: u32 = 0x1FFF_E000;

pub const CFG_ALARM: u32 = 1 << 10;

/// One 64-bit timer.
#[derive(Clone, Copy)]
pub struct TimerState {
    pub counter: u64,
    /// High word latched by the last update request.
    pub hi_latched: u32,
    /// Cycles since the counter last moved.
    pub div_acc: u64,
}

/// A 64-bit value from its two words.
pub open spec fn wide(lo: u32, hi: u32) -> u64 {
    (lo as u64) | ((hi as u64) << 32)
}

/// A timer group.
#[verifier::ext_equal]
pub struct TimgState {
    pub regs: Seq<u32>,
    pub t0: TimerState,
    pub t1: TimerState,
    /// A calibration has completed.
    pub cali_done: bool,
    /// Cycles that a cycling calibration has been waiting.
    pub cali_timeout: u64,
    /// Value of the write-protect register.
    pub wdt_wkey: u32,
    /// Prescaled cycles since the watchdog was enabled or fed.
    pub wdt_count: u64,
    /// Cycles toward the next watchdog count.
    pub wdt_clk_acc: u64,
    pub wdt_running: bool,
    /// Stages that have fired since the last feed.
    pub wdt_stage_fired: Seq<bool>,
    /// A reset request is pending.
    pub wdt_reset: bool,
}

/// Offset of timer `which`'s register that sits at `off` for timer 0.
pub open spec fn timer_reg(which: int, off: u32) -> u32 {
    if which == 0 {
        off
    } else {
        (off + T1_OFF) as u32
    }
}

impl TimgState {
    pub open spec fn wf(self) -> bool {
        self.regs.len() == REG_COUNT && self.wdt_stage_fired.len() == 4
    }

    pub open spec fn reset() -> Self {
        TimgState {
            regs: Seq::new(REG_COUNT as nat, |i: int| 0u32).update(
                (RTCCALICFG / 4) as int,
                0x1_3000,
            ).update((RTCCALICFG2 / 4) as int, 0xFFFF_FF98),
            t0: TimerState { counter: 0, hi_latched: 0, div_acc: 0 },
            t1: TimerState { counter: 0, hi_latched: 0, div_acc: 0 },
            cali_done: false,
            cali_timeout: 0,
            wdt_wkey: WDT_WKEY,
            wdt_count: 0,
            wdt_clk_acc: 0,
            wdt_running: false,
            wdt_stage_fired: seq![false, false, false, false],
            wdt_reset: false,
        }
    }

    pub open spec fn reg(self, off: u32) -> u32 {
        self.regs[(off / 4) as int]
    }

    pub open spec fn with_reg(self, off: u32, v: u32) -> Self {
        TimgState { regs: self.regs.update((off / 4) as int, v), ..self }
    }

    pub open spec fn int_st(self) -> u32 {
        self.reg(INT_RAW) & self.reg(INT_ENA)
    }

    pub open spec fn timer(self, which: int) -> TimerState {
        if which == 0 {
            self.t0
        } else {
            self.t1
        }
    }

    pub open spec fn with_timer(self, which: int, t: TimerState) -> Self {
        if which == 0 {
            TimgState { t0: t, ..self }
        } else {
            TimgState { t1: t, ..self }
        }
    }

    /// Configuration word of timer `which`.
    pub open spec fn cfg(self, which: int) -> u32 {
        self.reg(timer_reg(which, T0CONFIG))
    }

    /// Clock divider of timer `which`; 0 and 1 move the counter every cycle.
    pub open spec fn divider(self, which: int) -> u32 {
        (self.cfg(which) & CFG_DIVIDER) >> 13
    }

    pub open spec fn alarm(self, which: int) -> u64 {
        wide(self.reg(timer_reg(which, T0ALARMLO)), self.reg(timer_reg(which, T0ALARMHI)))
    }

    pub open spec fn load(self, which: int) -> u64 {
        wide(self.reg(timer_reg(which, T0LOADLO)), self.reg(timer_reg(which, T0LOADHI)))
    }

    /// The group after one cycle of timer `which`.
    pub open spec fn timer_cycle(self, which: int) -> Self {
        let cfg = self.cfg(which);
        let t = self.timer(which);
        let acc = t.div_acc.wrapping_add(1);
        if cfg & CFG_EN == 0 {
            self
        } else if self.divider(which) != 0 && acc < self.divider(which) {
            self.with_timer(which, TimerState { div_acc: acc, ..t })
        } else {
            let moved = if cfg & CFG_INCREASE != 0 {
                t.counter.wrapping_add(1)
            } else {
                t.counter.wrapping_sub(1)
            };
            if cfg & CFG_ALARM != 0 && moved == self.alarm(which) {
                let counter = if cfg & CFG_AUTORELOAD != 0 {
                    self.load(which)
                } else {
                    moved
                };
                self.with_timer(which, TimerState { counter, div_acc: 0, ..t }).with_reg(
                    INT_RAW,
                    self.reg(INT_RAW) | (if which == 0 { INT_T0 } else { INT_T1 }),
                )
            } else {
                self.with_timer(which, TimerState { counter: moved, div_acc: 0, ..t })
            }
        }
    }

    /// The group after one cycle of the calibration timeout.
    pub open spec fn cali_cycle(self) -> Self {
        if self.cali_done {
            self
        } else if self.reg(RTCCALICFG) & CALI_START_CYCLING == 0 {
            TimgState { cali_timeout: 0, ..self }
        } else {
            let waited = self.cali_timeout.wrapping_add(1);
            let counted = TimgState { cali_timeout: waited, ..self };
            if waited > self.reg(RTCCALICFG2) >> 7 {
                counted.with_reg(RTCCALICFG2, self.reg(RTCCALICFG2) | 1)
            } else {
                counted
            }
        }
    }

    /// Watchdog prescaler: cycles per count.
    pub open spec fn wdt_prescale(self) -> u64 {
        let p = (self.reg(WDT_CONFIG1) >> 16) & 0xFFFF;
        if p == 0 {
            1
        } else {
            p as u64
        }
    }

    /// Hold of stage `i`.
    pub open spec fn wdt_hold(self, i: int) -> int {
        self.regs[WDT_CONFIG2 / 4 + i] as int
    }

    /// Count at which stage `i` fires: the sum of the holds up to it.
    pub open spec fn wdt_threshold(self, i: int) -> int
        decreases i + 1,
    {
        if i < 0 {
            0
        } else {
            self.wdt_threshold(i - 1) + self.wdt_hold(i)
        }
    }

    /// Action of stage `i`.
    pub open spec fn wdt_action(self, i: int) -> u32 {
        (self.reg(WDT_CONFIG0) >> WDT_STG_SHIFT[i]) & 0x3
    }

    /// Stage `i` fires at the present count. A stage whose cumulative hold is
    /// zero never does.
    pub open spec fn wdt_fires(self, i: int) -> bool {
        !self.wdt_stage_fired[i] && self.wdt_threshold(i) != 0 && self.wdt_count
            >= self.wdt_threshold(i)
    }

    /// The group after the stages among `0..n` that are due have fired.
    pub open spec fn wdt_staged(self, n: nat) -> Self {
        let interrupts = exists|i: int| 0 <= i < n && #[trigger] self.wdt_fires(i)
            && self.wdt_action(i) == 1;
        let resets = exists|i: int| 0 <= i < n && #[trigger] self.wdt_fires(i) && self.wdt_action(i)
            >= 2;
        TimgState {
            wdt_stage_fired: Seq::new(
                4,
                |i: int| self.wdt_stage_fired[i] || (i < n && self.wdt_fires(i)),
            ),
            wdt_reset: self.wdt_reset || resets,
            ..(if interrupts {
                self.with_reg(INT_RAW, self.reg(INT_RAW) | INT_WDT)
            } else {
                self
            })
        }
    }

    /// The watchdog restarted: count and stages cleared.
    pub open spec fn wdt_restarted(self) -> Self {
        TimgState {
            wdt_count: 0,
            wdt_clk_acc: 0,
            wdt_stage_fired: seq![false, false, false, false],
            ..self
        }
    }

    /// The group after one cycle of the enabled watchdog.
    pub open spec fn wdt_cycle(self) -> Self {
        let s = if self.wdt_running {
            self
        } else {
            TimgState { wdt_running: true, ..self.wdt_restarted() }
        };
        let acc = s.wdt_clk_acc.wrapping_add(1);
        if acc < s.wdt_prescale() {
            TimgState { wdt_clk_acc: acc, ..s }
        } else {
            (TimgState {
                wdt_clk_acc: (acc - s.wdt_prescale()) as u64,
                wdt_count: s.wdt_count.wrapping_add(1),
                ..s
            }).wdt_staged(4)
        }
    }

    /// The group after one cycle.
    pub open spec fn cycle(self) -> Self {
        let s = self.timer_cycle(0).timer_cycle(1).cali_cycle();
        if self.reg(WDT_CONFIG0) & WDT_EN != 0 {
            s.wdt_cycle()
        } else {
            s
        }
    }

    /// The group after `n` cycles.
    pub open spec fn ticked(self, n: nat) -> Self
        decreases n,
    {
        if n == 0 {
            self
        } else {
            self.ticked((n - 1) as nat).cycle()
        }
    }

    /// Calibration result: slow-clock cycles times the clock ratio, saturated to
    /// its field.
    pub open spec fn cali_value(cfg: u32) -> u64 {
        let max = ((cfg & CALI_MAX) >> 16) as u64;
        let sel = (cfg & CALI_CLK_SEL) >> 13;
        let count = max * CALI_RATIO[if sel < 2 { sel as int } else { 2 }];
        if count < CALI_VALUE_MAX {
            count as u64
        } else {
            CALI_VALUE_MAX
        }
    }

    /// The group after a calibration with configuration `cfg`.
    pub open spec fn calibrated(self, cfg: u32) -> Self {
        (TimgState { cali_done: true, cali_timeout: 0, ..self }).with_reg(
            RTCCALICFG1,
            ((Self::cali_value(cfg) as u32) << 7) | 1,
        ).with_reg(RTCCALICFG2, self.reg(RTCCALICFG2) & !1)
    }

    /// Value that a register read returns; offsets outside the block read as 0.
    pub open spec fn read(self, off: u32) -> u32 {
        if off >= 4 * REG_COUNT {
            0
        } else if off == INT_ST {
            self.int_st()
        } else if off == RTCCALICFG {
            self.reg(RTCCALICFG) | (if self.cali_done { CALI_RDY } else { 0 })
        } else if off == T0LO {
            self.t0.counter as u32
        } else if off == T0HI {
            self.t0.hi_latched
        } else if off == T1LO {
            self.t1.counter as u32
        } else if off == T1HI {
            self.t1.hi_latched
        } else {
            self.reg(off)
        }
    }

    /// The group after a register write; offsets outside the block are ignored.
    pub open spec fn written(self, off: u32, value: u32) -> Self {
        if off >= 4 * REG_COUNT {
            self
        } else if off == T0UPDATE || off == T1UPDATE {
            let which: int = if off == T0UPDATE { 0 } else { 1 };
            let t = self.timer(which);
            self.with_timer(
                which,
                TimerState { hi_latched: (t.counter >> 32) as u32, ..t },
            ).with_reg(off, value)
        } else if off == T0LOAD || off == T1LOAD {
            let which: int = if off == T0LOAD { 0 } else { 1 };
            self.with_timer(
                which,
                TimerState { counter: self.load(which), ..self.timer(which) },
            ).with_reg(off, value)
        } else if off == RTCCALICFG {
            let stored = self.with_reg(RTCCALICFG, value & !CALI_RDY);
            if value & CALI_START != 0 || (value & CALI_START_CYCLING != 0 && (value & CALI_MAX)
                >> 16 != 0) {
                stored.calibrated(value)
            } else {
                stored
            }
        } else if off == INT_CLR {
            self.with_reg(INT_RAW, self.reg(INT_RAW) & !value)
        } else if WDT_CONFIG0 <= off <= WDT_CONFIG5 && off % 4 == 0 {
            if self.wdt_wkey != WDT_WKEY {
                self
            } else if off == WDT_CONFIG0 && value & WDT_EN == 0 {
                TimgState {
                    wdt_running: false,
                    ..self.wdt_restarted().with_reg(WDT_CONFIG0, value)
                }
            } else {
                self.with_reg(off, value)
            }
        } else if off == WDT_WPROTECT {
            (TimgState { wdt_wkey: value, ..self }).with_reg(WDT_WPROTECT, value)
        } else if off == WDT_FEED {
            self.wdt_restarted()
        } else {
            self.with_reg(off, value)
        }
    }
}

/// A timer group.
pub struct Timg {
    regs: [u32; REG_COUNT],
    t0: TimerState,
    t1: TimerState,
    cali_done: bool,
    cali_timeout: u64,
    wdt_wkey: u32,
    wdt_count: u64,
    wdt_clk_acc: u64,
    wdt_running: bool,
    wdt_stage_fired: [bool; 4],
    wdt_reset: bool,
}

impl View for Timg {
    type V = TimgState;

    closed spec fn view(&self) -> TimgState {
        TimgState {
            regs: self.regs@,
            t0: self.t0,
            t1: self.t1,
            cali_done: self.cali_done,
            cali_timeout: self.cali_timeout,
            wdt_wkey: self.wdt_wkey,
            wdt_count: self.wdt_count,
            wdt_clk_acc: self.wdt_clk_acc,
            wdt_running: self.wdt_running,
            wdt_stage_fired: self.wdt_stage_fired@,
            wdt_reset: self.wdt_reset,
        }
    }
}

impl Default for Timg {
    fn default() -> (t: Self)
        ensures
            t@ == TimgState::reset(),
    {
        Self::new()
    }
}

/// A 64-bit value from its two words.
fn join(lo: u32, hi: u32) -> (v: u64)
    ensures
        v == wide(lo, hi),
{
    (lo as u64) | ((hi as u64) << 32)
}

/// The tables of every value have their sizes.
pub proof fn lemma_sizes(t: Timg)
    ensures
        t@.wf(),
{
}

impl Timg {
    pub fn new() -> (t: Self)
        ensures
            t@ == TimgState::reset(),
            t@.wf(),
    {
        let mut regs: [u32; REG_COUNT] = [0u32; REG_COUNT];
        regs[(RTCCALICFG / 4) as usize] = 0x1_3000;
        regs[(RTCCALICFG2 / 4) as usize] = 0xFFFF_FF98;
        let t = Timg {
            regs,
            t0: TimerState { counter: 0, hi_latched: 0, div_acc: 0 },
            t1: TimerState { counter: 0, hi_latched: 0, div_acc: 0 },
            cali_done: false,
            cali_timeout: 0,
            wdt_wkey: WDT_WKEY,
            wdt_count: 0,
            wdt_clk_acc: 0,
            wdt_running: false,
            wdt_stage_fired: [false; 4],
            wdt_reset: false,
        };
        assert(t@ =~= TimgState::reset());
        t
    }

    /// Advance time by `cycles`.
    pub fn tick(&mut self, cycles: u64)
        ensures
            final(self)@ == old(self)@.ticked(cycles as nat),
    {
        let t0_en: bool = self.regs[(T0CONFIG / 4) as usize] & CFG_EN != 0;
        let t1_en: bool = self.regs[(T1_OFF / 4) as usize] & CFG_EN != 0;
        let wdt_en: bool = self.regs[(WDT_CONFIG0 / 4) as usize] & WDT_EN != 0;
        if !t0_en && !t1_en && !wdt_en && self.cali_done {
            proof {
                lemma_idle_ticks(self@, cycles as nat);
            }
            return;
        }
        let mut i: u64 = 0;
        while i < cycles
            invariant
                i <= cycles,
                self@ == old(self)@.ticked(i as nat),
                wdt_en == (self@.reg(WDT_CONFIG0) & WDT_EN != 0),
            decreases cycles - i,
        {
            self.tick_timer(0);
            self.tick_timer(1);
            self.tick_cali();
            if wdt_en {
                self.tick_wdt();
            }
            i = i + 1;
        }
    }

    /// One cycle of the enabled watchdog.
    fn tick_wdt(&mut self)
        ensures
            final(self)@ == old(self)@.wdt_cycle(),
    {
        if !self.wdt_running {
            self.wdt_count = 0;
            self.wdt_clk_acc = 0;
            self.wdt_stage_fired = [false; 4];
            self.wdt_running = true;
        }
        let ghost s = if old(self)@.wdt_running {
            old(self)@
        } else {
            TimgState { wdt_running: true, ..old(self)@.wdt_restarted() }
        };
        assert(self@ =~= s);
        let p: u32 = (self.regs[(WDT_CONFIG1 / 4) as usize] >> 16) & 0xFFFF;
        let prescale: u64 = if p == 0 { 1 } else { p as u64 };
        let acc: u64 = self.wdt_clk_acc.wrapping_add(1);
        if acc < prescale {
            self.wdt_clk_acc = acc;
            return;
        }
        self.wdt_clk_acc = acc - prescale;
        self.wdt_count = self.wdt_count.wrapping_add(1);
        self.run_stages();
    }

    /// Fire the watchdog stages that are due.
    fn run_stages(&mut self)
        ensures
            final(self)@ == old(self)@.wdt_staged(4),
    {
        let cfg0: u32 = self.regs[(WDT_CONFIG0 / 4) as usize];
        let ghost s = self@;
        let mut thr: u64 = 0;
        let mut i: usize = 0;
        assert(s.wdt_staged(0) =~= s);
        while i < 4
            invariant
                i <= 4,
                s == old(self)@,
                s.wf(),
                cfg0 == s.reg(WDT_CONFIG0),
                thr == s.wdt_threshold(i - 1),
                thr <= i * 0xFFFF_FFFF,
                self@ == s.wdt_staged(i as nat),
            decreases 4 - i,
        {
            let hold: u64 = self.regs[(WDT_CONFIG2 / 4) as usize + i] as u64;
            assert(hold == s.wdt_hold(i as int));
            thr = thr + hold;
            assert(thr == s.wdt_threshold(i as int));
            if thr != 0 && !self.wdt_stage_fired[i] && self.wdt_count >= thr {
                assert(s.wdt_fires(i as int));
                self.wdt_stage_fired[i] = true;
                let action: u32 = (cfg0 >> WDT_STG_SHIFT[i]) & 0x3;
                assert(action == s.wdt_action(i as int));
                if action == 1 {
                    self.regs[(INT_RAW / 4) as usize] = self.regs[(INT_RAW / 4) as usize] | INT_WDT;
                } else if action != 0 {
                    self.wdt_reset = true;
                }
                proof {
                    lemma_or_twice(s.reg(INT_RAW), INT_WDT);
                }
            } else {
                assert(!s.wdt_fires(i as int));
            }
            proof {
                let next = s.wdt_staged((i + 1) as nat);
                assert(self@.wdt_stage_fired =~= next.wdt_stage_fired);
                assert(self@.wdt_reset == next.wdt_reset);
                assert(self@.regs =~= next.regs);
            }
            i = i + 1;
        }
    }

    /// One cycle of the calibration timeout.
    fn tick_cali(&mut self)
        ensures
            final(self)@ == old(self)@.cali_cycle(),
    {
        if self.cali_done {
            return;
        }
        if self.regs[(RTCCALICFG / 4) as usize] & CALI_START_CYCLING != 0 {
            self.cali_timeout = self.cali_timeout.wrapping_add(1);
            let v: u32 = self.regs[(RTCCALICFG2 / 4) as usize];
            if self.cali_timeout > (v >> 7) as u64 {
                self.regs[(RTCCALICFG2 / 4) as usize] = v | 1;
            }
        } else {
            self.cali_timeout = 0;
        }
    }

    /// Run a calibration.
    fn run_cali(&mut self, cfg: u32)
        ensures
            final(self)@ == old(self)@.calibrated(cfg),
    {
        proof {
            lemma_cali_max(cfg);
        }
        let max: u64 = ((cfg & CALI_MAX) >> 16) as u64;
        let sel: u32 = (cfg & CALI_CLK_SEL) >> 13;
        let ratio: u64 = CALI_RATIO[if sel < 2 { sel as usize } else { 2 }];
        assert(0 <= max * ratio <= 0x7FFF * 1280) by (nonlinear_arith)
            requires
                0 <= max <= 0x7FFF,
                0 <= ratio <= 1280,
        ;
        let count: u64 = max * ratio;
        let count: u64 = if count < CALI_VALUE_MAX { count } else { CALI_VALUE_MAX };
        self.regs[(RTCCALICFG1 / 4) as usize] = ((count as u32) << 7) | 1;
        self.cali_done = true;
        let v: u32 = self.regs[(RTCCALICFG2 / 4) as usize];
        self.regs[(RTCCALICFG2 / 4) as usize] = v & !1;
        self.cali_timeout = 0;
        assert(self@ =~= old(self)@.calibrated(cfg));
    }

    /// One cycle of timer `which`.
    fn tick_timer(&mut self, which: u32)
        requires
            which < 2,
        ensures
            final(self)@ == old(self)@.timer_cycle(which as int),
    {
        let off: u32 = if which == 0 { 0 } else { T1_OFF };
        let cfg: u32 = self.regs[((T0CONFIG + off) / 4) as usize];
        if cfg & CFG_EN == 0 {
            return;
        }
        let mut t: TimerState = if which == 0 { self.t0 } else { self.t1 };
        let div: u32 = (cfg & CFG_DIVIDER) >> 13;
        t.div_acc = t.div_acc.wrapping_add(1);
        if div == 0 || t.div_acc >= div as u64 {
            t.div_acc = 0;
            t.counter = if cfg & CFG_INCREASE != 0 {
                t.counter.wrapping_add(1)
            } else {
                t.counter.wrapping_sub(1)
            };
            let alarm: u64 = join(
                self.regs[((T0ALARMLO + off) / 4) as usize],
                self.regs[((T0ALARMHI + off) / 4) as usize],
            );
            if cfg & CFG_ALARM != 0 && t.counter == alarm {
                if cfg & CFG_AUTORELOAD != 0 {
                    t.counter = join(
                        self.regs[((T0LOADLO + off) / 4) as usize],
                        self.regs[((T0LOADHI + off) / 4) as usize],
                    );
                }
                let raw: u32 = self.regs[(INT_RAW / 4) as usize];
                self.regs[(INT_RAW / 4) as usize] = raw | (if which == 0 { INT_T0 } else { INT_T1 });
            }
        }
        if which == 0 {
            self.t0 = t;
        } else {
            self.t1 = t;
        }
        assert(self@ =~= old(self)@.timer_cycle(which as int));
    }

    /// Read a register.
    pub fn read32(&mut self, offset: u32) -> (v: u32)
        ensures
            v == old(self)@.read(offset),
            final(self)@ == old(self)@,
    {
        match offset {
            INT_ST => self.int_st(),
            RTCCALICFG => self.regs[(RTCCALICFG / 4) as usize] | (if self.cali_done {
                CALI_RDY
            } else {
                0
            }),
            T0LO => self.t0.counter as u32,
            T0HI => self.t0.hi_latched,
            T1LO => self.t1.counter as u32,
            T1HI => self.t1.hi_latched,
            _ => if offset < 4 * REG_COUNT as u32 {
                self.regs[(offset / 4) as usize]
            } else {
                0
            },
        }
    }

    /// Write a register.
    pub fn write32(&mut self, offset: u32, value: u32)
        ensures
            final(self)@ == old(self)@.written(offset, value),
    {
        if offset >= 4 * REG_COUNT as u32 {
            return;
        }
        match offset {
            T0UPDATE => {
                self.t0.hi_latched = (self.t0.counter >> 32) as u32;
                self.regs[(T0UPDATE / 4) as usize] = value;
            },
            T1UPDATE => {
                self.t1.hi_latched = (self.t1.counter >> 32) as u32;
                self.regs[(T1UPDATE / 4) as usize] = value;
            },
            T0LOAD => {
                self.t0.counter = join(
                    self.regs[(T0LOADLO / 4) as usize],
                    self.regs[(T0LOADHI / 4) as usize],
                );
                self.regs[(T0LOAD / 4) as usize] = value;
            },
            T1LOAD => {
                self.t1.counter = join(
                    self.regs[((T0LOADLO + T1_OFF) / 4) as usize],
                    self.regs[((T0LOADHI + T1_OFF) / 4) as usize],
                );
                self.regs[(T1LOAD / 4) as usize] = value;
            },
            RTCCALICFG => {
                self.regs[(RTCCALICFG / 4) as usize] = value & !CALI_RDY;
                if value & CALI_START != 0 || (value & CALI_START_CYCLING != 0 && (value & CALI_MAX)
                    >> 16 != 0) {
                    self.run_cali(value);
                }
            },
            INT_CLR => {
                let raw: u32 = self.regs[(INT_RAW / 4) as usize];
                self.regs[(INT_RAW / 4) as usize] = raw & !value;
            },
            WDT_WPROTECT => {
                self.wdt_wkey = value;
                self.regs[(WDT_WPROTECT / 4) as usize] = value;
            },
            WDT_FEED => self.restart_wdt(),
            _ => {
                if WDT_CONFIG0 <= offset && offset <= WDT_CONFIG5 && offset % 4 == 0 {
                    if self.wdt_wkey == WDT_WKEY {
                        self.regs[(offset / 4) as usize] = value;
                        if offset == WDT_CONFIG0 && value & WDT_EN == 0 {
                            self.restart_wdt();
                            self.wdt_running = false;
                        }
                    }
                } else {
                    self.regs[(offset / 4) as usize] = value;
                }
            },
        }
        assert(self@ =~= old(self)@.written(offset, value));
    }

    /// Clear the watchdog count and its stages.
    fn restart_wdt(&mut self)
        ensures
            final(self)@ == old(self)@.wdt_restarted(),
    {
        self.wdt_count = 0;
        self.wdt_clk_acc = 0;
        self.wdt_stage_fired = [false; 4];
        assert(self@ =~= old(self)@.wdt_restarted());
    }

    /// Interrupt status: raw bits that are enabled.
    pub fn int_st(&self) -> (st: u32)
        ensures
            st == self@.int_st(),
    {
        self.regs[(INT_RAW / 4) as usize] & self.regs[(INT_ENA / 4) as usize]
    }

    /// Take a pending watchdog reset request.
    pub fn consume_reset(&mut self) -> (r: bool)
        ensures
            r == old(self)@.wdt_reset,
            final(self)@ == (TimgState { wdt_reset: false, ..old(self)@ }),
    {
        let r: bool = self.wdt_reset;
        self.wdt_reset = false;
        r
    }
}

/// The calibration cycle count fits in 15 bits.
proof fn lemma_cali_max(cfg: u32)
    ensures
        (cfg & CALI_MAX) >> 16 <= 0x7FFF,
{
    assert((cfg & 0x7FFF_0000u32) >> 16 <= 0x7FFF) by (bit_vector);
}

/// Setting a bit twice is setting it once.
proof fn lemma_or_twice(x: u32, m: u32)
    ensures
        (x | m) | m == x | m,
{
    crate::bits::lemma_masks(x, m, 0);
}

/// Nothing changes while nothing counts.
proof fn lemma_idle_ticks(s: TimgState, n: nat)
    requires
        s.wf(),
        s.cfg(0) & CFG_EN == 0,
        s.cfg(1) & CFG_EN == 0,
        s.reg(WDT_CONFIG0) & WDT_EN == 0,
        s.cali_done,
    ensures
        s.ticked(n) == s,
    decreases n,
{
    if n > 0 {
        lemma_idle_ticks(s, (n - 1) as nat);
    }
}

/// Interrupt clear: exactly the written bits of `INT_RAW` clear; status is raw
/// and enabled.
pub proof fn law_interrupt_clear(s: TimgState, v: u32)
    requires
        s.wf(),
    ensures
        s.written(INT_CLR, v).reg(INT_RAW) == s.reg(INT_RAW) & !v,
        s.read(INT_ST) == s.reg(INT_RAW) & s.reg(INT_ENA),
{
}

/// Ticking is additive in time.
pub proof fn law_tick_additive(s: TimgState, a: nat, b: nat)
    ensures
        s.ticked(a).ticked(b) == s.ticked(a + b),
    decreases b,
{
    if b > 0 {
        law_tick_additive(s, a, (b - 1) as nat);
    }
}

/// A timer whose divider is `d` moves its counter on the `d`-th cycle and not
/// before.
pub proof fn law_divider(s: TimgState, which: int)
    requires
        s.wf(),
        which == 0 || which == 1,
        s.cfg(which) & CFG_EN != 0,
        s.timer(which).div_acc < u64::MAX,
    ensures
        s.timer(which).div_acc + 1 < s.divider(which) ==> s.timer_cycle(which).timer(which)
            == (TimerState {
            div_acc: (s.timer(which).div_acc + 1) as u64,
            ..s.timer(which)
        }),
        s.timer(which).div_acc + 1 >= s.divider(which) ==> s.timer_cycle(which).timer(which).div_acc
            == 0,
{
}

/// A counter that steps onto its alarm value raises the timer's interrupt, and
/// continues from the reload value if auto-reload is on.
pub proof fn law_alarm_raises_interrupt(s: TimgState, which: int)
    requires
        s.wf(),
        which == 0 || which == 1,
        s.cfg(which) & CFG_EN != 0,
        s.cfg(which) & CFG_ALARM != 0,
        s.cfg(which) & CFG_INCREASE != 0,
        s.divider(which) <= 1,
        s.timer(which).counter.wrapping_add(1) == s.alarm(which),
        s.timer(which).div_acc < u64::MAX,
    ensures
        s.timer_cycle(which).reg(INT_RAW) & (if which == 0 { INT_T0 } else { INT_T1 }) == (
        if which == 0 { INT_T0 } else { INT_T1 }),
        s.timer_cycle(which).timer(which).counter == if s.cfg(which) & CFG_AUTORELOAD != 0 {
            s.load(which)
        } else {
            s.alarm(which)
        },
{
    crate::bits::lemma_or_sets(s.reg(INT_RAW), if which == 0 { INT_T0 } else { INT_T1 });
}

/// The watchdog configuration is locked unless the write-protect register holds
/// the key.
pub proof fn law_watchdog_write_protect(s: TimgState, off: u32, v: u32)
    requires
        s.wf(),
        WDT_CONFIG0 <= off <= WDT_CONFIG5,
        off % 4 == 0,
    ensures
        s.wdt_wkey != WDT_WKEY ==> s.written(off, v) == s,
        s.wdt_wkey == WDT_WKEY ==> s.written(off, v).reg(off) == v,
{
}

/// A stage that has fired does not fire again until the watchdog restarts.
pub proof fn law_stage_fires_once(s: TimgState, i: int)
    requires
        s.wf(),
        0 <= i < 4,
    ensures
        !s.wdt_staged(4).wdt_fires(i),
        s.wdt_stage_fired[i] ==> s.wdt_staged(4).wdt_stage_fired[i],
{
    let t = s.wdt_staged(4);
    if !t.wdt_stage_fired[i] {
        lemma_threshold_kept(s, t, i);
    }
}

/// Firing stages does not move the thresholds.
proof fn lemma_threshold_kept(s: TimgState, t: TimgState, i: int)
    requires
        s.wf(),
        t == s.wdt_staged(4),
        i < 4,
    ensures
        t.wdt_threshold(i) == s.wdt_threshold(i),
    decreases i + 1,
{
    if i >= 0 {
        lemma_threshold_kept(s, t, i - 1);
    }
}

/// Feeding the watchdog, or disabling it, restarts it: no count, no fired stage.
pub proof fn law_feed_and_disable_restart(s: TimgState, v: u32)
    requires
        s.wf(),
        s.wdt_wkey == WDT_WKEY,
        v & WDT_EN == 0,
    ensures
        s.written(WDT_FEED, v).wdt_count == 0,
        s.written(WDT_CONFIG0, v).wdt_count == 0,
        forall|i: int| 0 <= i < 4 ==> !s.written(WDT_FEED, v).wdt_stage_fired[i],
        forall|i: int| 0 <= i < 4 ==> !s.written(WDT_CONFIG0, v).wdt_stage_fired[i],
{
}

/// A due stage whose action is a reset requests one; the request is taken once.
pub proof fn law_reset_stage_requests_reset(s: TimgState, i: int)
    requires
        s.wf(),
        0 <= i < 4,
        s.wdt_fires(i),
        s.wdt_action(i) >= 2,
    ensures
        s.wdt_staged(4).wdt_reset,
{
}

/// `TnUPDATE` latches the high word of the counter as it is, and `TnLOAD` loads
/// the counter from the load registers.
pub proof fn law_update_and_load(s: TimgState, v: u32)
    requires
        s.wf(),
    ensures
        s.written(T0UPDATE, v).read(T0HI) == (s.t0.counter >> 32) as u32,
        s.written(T0UPDATE, v).read(T0LO) == s.t0.counter as u32,
        s.written(T1UPDATE, v).read(T1HI) == (s.t1.counter >> 32) as u32,
        s.written(T0LOAD, v).t0.counter == s.load(0),
        s.written(T1LOAD, v).t1.counter == s.load(1),
{
}

/// Starting a calibration makes it ready and its result valid at once.
pub proof fn law_calibration_completes(s: TimgState, v: u32)
    requires
        s.wf(),
        v & CALI_START != 0,
    ensures
        s.written(RTCCALICFG, v).read(RTCCALICFG) & CALI_RDY == CALI_RDY,
        s.written(RTCCALICFG, v).read(RTCCALICFG1) == ((TimgState::cali_value(v) as u32) << 7) | 1,
{
    crate::bits::lemma_or_sets(v & !CALI_RDY, CALI_RDY);
}

} // verus!
