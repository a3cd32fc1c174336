//! System timer.
//!
//! Two 52-bit counters that advance one per cycle while enabled, and three alarm
//! targets. Writing the update bit of a unit's `OP` register copies its counter
//! into the `VALUE` latches and raises the valid bit.
//!
//! A one-shot alarm is armed by a `COMP_LOAD` write and fires when its unit's
//! counter reaches the target; firing consumes the arm. A periodic alarm is
//! active while its work and interrupt enables are set: it fires at each period
//! boundary and re-arms itself for the next. Either way the raw interrupt bit
//! stays set until cleared.

use vstd::prelude::*;

verus! {

broadcast use crate::bits::lemma_and_le;

/// Words in the register block.
pub const REG_COUNT: usize = 64;

pub const CONF: u32 = 0x000;

pub const OP0: u32 = 0x004;

pub const OP1: u32 = 0x008;

pub const LOAD_HI0: u32 = 0x00C;

pub const LOAD_LO0: u32 = 0x010;

pub const LOAD_HI1: u32 = 0x014;

pub const LOAD_LO1: u32 = 0x018;

/// Target `n` is at `+ 8 * n`.
pub const TARGET_HI: u32 = 0x01C;

pub const TARGET_LO: u32 = 0x020;

/// Configuration of target `n` is at `+ 4 * n`.
pub const TARGET_CONF: u32 = 0x034;

pub const VALUE_HI0: u32 = 0x040;

pub const VALUE_LO0: u32 = 0x044;

pub const VALUE_HI1: u32 = 0x048;

pub const VALUE_LO1: u32 = 0x04C;

/// Arm register of target `n` is at `+ 4 * n`.
pub const COMP_LOAD: u32 = 0x050;

pub const LOAD_APPLY0: u32 = 0x05C;

pub const LOAD_APPLY1: u32 = 0x060;

pub const INT_ENA: u32 = 0x064;

pub const INT_RAW: u32 = 0x068;

pub const INT_CLR: u32 = 0x06C;

pub const INT_ST: u32 = 0x070;

/// Effective count of target `n` is at `+ 4 * n`.
pub const REAL_TARGET: u32 = 0x074;

pub const DATE: u32 = 0x0FC;

pub const DATE_VALUE: u32 = 0x0201_0F31;

pub const OP_UPDATE: u32 = 1 << 30;

pub const OP_VALUE_VALID: u32 = 1 << 29;

pub const TARGET_WORK_EN: [u32; 3] = [0x100_0000, 0x80_0000, 0x40_0000];

pub const UNIT0_WORK_EN: u32 = 1 << 30;

pub const UNIT1_WORK_EN: u32 = 1 << 29;

/// Either unit's work enable.
pub const UNIT_WORK_EN: u32 = 0x6000_0000;

/// Interrupt bit of each target.
pub const TARGET_BIT: [u32; 3] = [1, 2, 4];

/// Periodic mode of a target.
pub const PERIOD_MODE: u32 = 1 << 30;

/// Period field of a target configuration.
pub const PERIOD_MASK: u32 = 0x3FF_FFFF;

/// The counters are 52 bits wide.
pub const COUNTER_MASK: u64 = 0xF_FFFF_FFFF_FFFF;

/// One counter with its snapshot.
#[derive(Clone, Copy)]
pub struct Unit {
    pub counter: u64,
    pub value_lo: u32,
    pub value_hi: u32,
    pub op_valid: bool,
}

impl Unit {
    /// The unit after a snapshot: the latches hold its 52-bit counter.
    pub open spec fn snapped(self) -> Self {
        Unit {
            value_lo: self.counter as u32,
            value_hi: ((self.counter >> 32) & 0xF_FFFF) as u32,
            op_valid: true,
            ..self
        }
    }

    /// The unit after one cycle.
    pub open spec fn counted(self) -> Self {
        Unit { counter: self.counter.wrapping_add(1) & COUNTER_MASK, ..self }
    }
}

/// The system timer.
#[verifier::ext_equal]
pub struct SystimerState {
    pub regs: Seq<u32>,
    pub units: Seq<Unit>,
    /// One-shot alarms that are armed.
    pub armed: Seq<bool>,
    /// Periodic alarms that are active.
    pub period_active: Seq<bool>,
    /// Next boundary of each periodic alarm.
    pub period_boundary: Seq<u64>,
}

impl SystimerState {
    pub open spec fn wf(self) -> bool {
        &&& self.regs.len() == REG_COUNT
        &&& self.units.len() == 2
        &&& self.armed.len() == 3
        &&& self.period_active.len() == 3
        &&& self.period_boundary.len() == 3
    }

    pub open spec fn reset() -> Self {
        let unit = Unit { counter: 0, value_lo: 0, value_hi: 0, op_valid: false };
        SystimerState {
            regs: Seq::new(REG_COUNT as nat, |i: int| 0u32).update(
                (CONF / 4) as int,
                UNIT0_WORK_EN,
            ).update((DATE / 4) as int, DATE_VALUE),
            units: seq![unit, unit],
            armed: seq![false, false, false],
            period_active: seq![false, false, false],
            period_boundary: seq![0, 0, 0],
        }
    }

    pub open spec fn reg(self, off: u32) -> u32 {
        self.regs[(off / 4) as int]
    }

    pub open spec fn with_reg(self, off: u32, v: u32) -> Self {
        SystimerState { regs: self.regs.update((off / 4) as int, v), ..self }
    }

    pub open spec fn int_st(self) -> u32 {
        self.reg(INT_RAW) & self.reg(INT_ENA)
    }

    /// Configuration of target `n`.
    pub open spec fn tconf(self, n: int) -> u32 {
        self.regs[TARGET_CONF / 4 + n]
    }

    /// Counter that target `n` compares with.
    pub open spec fn count(self, n: int) -> u64 {
        self.units[(self.tconf(n) >> 31) as int].counter
    }

    /// Value that the one-shot alarm `n` waits for.
    pub open spec fn target(self, n: int) -> u64 {
        ((self.regs[TARGET_HI / 4 + 2 * n] as u64) << 32) | (self.regs[TARGET_LO / 4 + 2 * n]
            as u64)
    }

    pub open spec fn work_enabled(self, n: int) -> bool {
        self.reg(CONF) & TARGET_WORK_EN[n] != 0
    }

    pub open spec fn raised(self, n: int) -> bool {
        self.reg(INT_RAW) & TARGET_BIT[n] != 0
    }

    pub open spec fn raising(self, n: int) -> Self {
        self.with_reg(INT_RAW, self.reg(INT_RAW) | TARGET_BIT[n])
    }

    pub open spec fn periodic(self, n: int) -> bool {
        self.tconf(n) & PERIOD_MODE != 0
    }

    /// Period of target `n`, at least 1.
    pub open spec fn period(self, n: int) -> u64 {
        let p = self.tconf(n) & PERIOD_MASK;
        if p == 0 {
            1
        } else {
            p as u64
        }
    }

    /// First boundary after the present count, in steps of the period from the
    /// boundary `b`.
    pub open spec fn boundary_after(self, n: int, b: u64) -> u64 {
        let p = self.period(n);
        self.count(n).wrapping_add((p - (self.count(n) - b) % (p as int)) as u64)
    }

    /// The timer after the check of alarm `n`.
    pub open spec fn checked(self, n: int) -> Self {
        if self.periodic(n) {
            if self.work_enabled(n) && self.reg(INT_ENA) & TARGET_BIT[n] != 0 {
                let started = if self.period_active[n] {
                    self
                } else {
                    SystimerState {
                        period_active: self.period_active.update(n, true),
                        period_boundary: self.period_boundary.update(n, self.count(n)),
                        ..self
                    }
                };
                let b = started.period_boundary[n];
                if !self.raised(n) && self.count(n) >= b {
                    SystimerState {
                        period_boundary: started.period_boundary.update(
                            n,
                            self.boundary_after(n, b),
                        ),
                        ..started.raising(n)
                    }
                } else {
                    started
                }
            } else {
                SystimerState { period_active: self.period_active.update(n, false), ..self }
            }
        } else {
            let oneshot = SystimerState {
                period_active: self.period_active.update(n, false),
                ..self
            };
            if self.armed[n] && self.work_enabled(n) && !self.raised(n) && self.count(n)
                >= self.target(n) {
                SystimerState { armed: self.armed.update(n, false), ..oneshot.raising(n) }
            } else {
                oneshot
            }
        }
    }

    /// The timer after the check of all alarms.
    pub open spec fn all_checked(self) -> Self {
        self.checked(0).checked(1).checked(2)
    }

    /// The timer after one cycle.
    pub open spec fn cycle(self) -> Self {
        let conf = self.reg(CONF);
        let u0 = if conf & UNIT0_WORK_EN != 0 {
            self.units.update(0, self.units[0].counted())
        } else {
            self.units
        };
        let u1 = if conf & UNIT1_WORK_EN != 0 {
            u0.update(1, u0[1].counted())
        } else {
            u0
        };
        (SystimerState { units: u1, ..self }).all_checked()
    }

    pub open spec fn cycles(self, n: nat) -> Self
        decreases n,
    {
        if n == 0 {
            self
        } else {
            self.cycles((n - 1) as nat).cycle()
        }
    }

    /// Nothing counts and no one-shot alarm is armed.
    pub open spec fn idle(self) -> bool {
        self.reg(CONF) & UNIT_WORK_EN == 0 && !self.armed[0] && !self.armed[1] && !self.armed[2]
    }

    /// The timer after `n` cycles; an idle timer stands still.
    pub open spec fn ticked(self, n: nat) -> Self {
        if self.idle() {
            self
        } else {
            self.cycles(n)
        }
    }

    /// Value that a register read returns; offsets outside the block read as 0.
    pub open spec fn read(self, off: u32) -> u32 {
        if off == OP0 || off == OP1 {
            if self.units[if off == OP0 { 0int } else { 1int }].op_valid {
                OP_VALUE_VALID
            } else {
                0
            }
        } else if off == VALUE_LO0 {
            self.units[0].value_lo
        } else if off == VALUE_HI0 {
            self.units[0].value_hi
        } else if off == VALUE_LO1 {
            self.units[1].value_lo
        } else if off == VALUE_HI1 {
            self.units[1].value_hi
        } else if off == INT_ST {
            self.int_st()
        } else if REAL_TARGET <= off <= REAL_TARGET + 8 {
            self.count((off - REAL_TARGET) / 4) as u32
        } else if off < 4 * REG_COUNT {
            self.reg(off)
        } else {
            0
        }
    }

    /// The timer after a register write; offsets outside the block are ignored.
    pub open spec fn written(self, off: u32, value: u32) -> Self {
        if off == OP0 || off == OP1 {
            let n: int = if off == OP0 { 0 } else { 1 };
            if value & OP_UPDATE != 0 {
                SystimerState { units: self.units.update(n, self.units[n].snapped()), ..self }
            } else {
                self
            }
        } else if COMP_LOAD <= off <= COMP_LOAD + 8 {
            let n = (off - COMP_LOAD) / 4;
            let s = SystimerState { armed: self.armed.update(n, value != 0), ..self };
            if value != 0 {
                s.all_checked()
            } else {
                s
            }
        } else if off == LOAD_APPLY0 || off == LOAD_APPLY1 {
            let n: int = if off == LOAD_APPLY0 { 0 } else { 1 };
            let hi = self.reg(if n == 0 { LOAD_HI0 } else { LOAD_HI1 });
            let lo = self.reg(if n == 0 { LOAD_LO0 } else { LOAD_LO1 });
            SystimerState {
                units: self.units.update(
                    n,
                    Unit { counter: ((hi as u64) << 32) | (lo as u64), ..self.units[n] },
                ),
                ..self
            }
        } else if off == INT_CLR {
            self.with_reg(INT_RAW, self.reg(INT_RAW) & !value)
        } else if off < 4 * REG_COUNT {
            self.with_reg(off, value)
        } else {
            self
        }
    }
}

/// The system timer.
pub struct Systimer {
    regs: [u32; REG_COUNT],
    units: [Unit; 2],
    armed: [bool; 3],
    period_active: [bool; 3],
    period_boundary: [u64; 3],
}

impl View for Systimer {
    type V = SystimerState;

    closed spec fn view(&self) -> SystimerState {
        SystimerState {
            regs: self.regs@,
            units: self.units@,
            armed: self.armed@,
            period_active: self.period_active@,
            period_boundary: self.period_boundary@,
        }
    }
}

impl Default for Systimer {
    fn default() -> (s: Self)
        ensures
            s@ == SystimerState::reset(),
    {
        Self::new()
    }
}

/// A word's sign bit shifted down is 0 or 1.
proof fn lemma_top_bit(x: u32)
    ensures
        x >> 31 <= 1,
{
    crate::bits::lemma_shr_le(x, 31);
    crate::bits::lemma_constants();
}

/// The tables of every value have their sizes.
pub proof fn lemma_sizes(t: Systimer)
    ensures
        t@.wf(),
{
}

impl Systimer {
    pub fn new() -> (s: Self)
        ensures
            s@ == SystimerState::reset(),
            s@.wf(),
    {
        let mut regs: [u32; REG_COUNT] = [0u32; REG_COUNT];
        regs[(CONF / 4) as usize] = UNIT0_WORK_EN;
        regs[(DATE / 4) as usize] = DATE_VALUE;
        let unit = Unit { counter: 0, value_lo: 0, value_hi: 0, op_valid: false };
        let s = Systimer {
            regs,
            units: [unit, unit],
            armed: [false; 3],
            period_active: [false; 3],
            period_boundary: [0u64; 3],
        };
        assert(s@ =~= SystimerState::reset());
        s
    }

    /// Advance time: each enabled counter ticks once per cycle, then the alarms
    /// are checked.
    pub fn tick(&mut self, cycles: u64)
        ensures
            final(self)@ == old(self)@.ticked(cycles as nat),
    {
        let conf: u32 = self.regs[(CONF / 4) as usize];
        if conf & UNIT_WORK_EN == 0 && !self.armed[0] && !self.armed[1] && !self.armed[2] {
            return;
        }
        let mut i: u64 = 0;
        while i < cycles
            invariant
                i <= cycles,
                conf == self@.reg(CONF),
                self@ == old(self)@.cycles(i as nat),
            decreases cycles - i,
        {
            let ghost s = self@;
            if conf & UNIT0_WORK_EN != 0 {
                self.units[0].counter = self.units[0].counter.wrapping_add(1) & COUNTER_MASK;
            }
            if conf & UNIT1_WORK_EN != 0 {
                self.units[1].counter = self.units[1].counter.wrapping_add(1) & COUNTER_MASK;
            }
            proof {
                let u0 = if conf & UNIT0_WORK_EN != 0 {
                    s.units.update(0, s.units[0].counted())
                } else {
                    s.units
                };
                let u1 = if conf & UNIT1_WORK_EN != 0 {
                    u0.update(1, u0[1].counted())
                } else {
                    u0
                };
                assert(self@ =~= (SystimerState { units: u1, ..s }));
            }
            self.check_alarms();
            i = i + 1;
        }
    }

    /// Check all alarms.
    fn check_alarms(&mut self)
        ensures
            final(self)@ == old(self)@.all_checked(),
            final(self)@.reg(CONF) == old(self)@.reg(CONF),
    {
        self.check_alarm(0);
        self.check_alarm(1);
        self.check_alarm(2);
    }

    /// Check alarm `n`.
    fn check_alarm(&mut self, n: usize)
        requires
            n < 3,
        ensures
            final(self)@ == old(self)@.checked(n as int),
            final(self)@.reg(CONF) == old(self)@.reg(CONF),
    {
        let conf: u32 = self.regs[(CONF / 4) as usize];
        let ena: u32 = self.regs[(INT_ENA / 4) as usize];
        let raw: u32 = self.regs[(INT_RAW / 4) as usize];
        let tconf: u32 = self.regs[(TARGET_CONF / 4) as usize + n];
        proof {
            lemma_top_bit(tconf);
        }
        let counter: u64 = self.units[(tconf >> 31) as usize].counter;
        if tconf & PERIOD_MODE != 0 {
            if conf & TARGET_WORK_EN[n] != 0 && ena & TARGET_BIT[n] != 0 {
                if !self.period_active[n] {
                    self.period_active[n] = true;
                    self.period_boundary[n] = counter;
                }
                let b: u64 = self.period_boundary[n];
                if raw & TARGET_BIT[n] == 0 && counter >= b {
                    self.regs[(INT_RAW / 4) as usize] = raw | TARGET_BIT[n];
                    let p: u64 = if tconf & PERIOD_MASK == 0 {
                        1
                    } else {
                        (tconf & PERIOD_MASK) as u64
                    };
                    self.period_boundary[n] = counter.wrapping_add(p - (counter - b) % p);
                }
            } else {
                self.period_active[n] = false;
            }
            assert(self@ =~= old(self)@.checked(n as int));
            return;
        }
        self.period_active[n] = false;
        if self.armed[n] && conf & TARGET_WORK_EN[n] != 0 && raw & TARGET_BIT[n] == 0 {
            let hi: u32 = self.regs[(TARGET_HI / 4) as usize + 2 * n];
            let lo: u32 = self.regs[(TARGET_LO / 4) as usize + 2 * n];
            let target: u64 = ((hi as u64) << 32) | (lo as u64);
            if counter >= target {
                self.armed[n] = false;
                self.regs[(INT_RAW / 4) as usize] = raw | TARGET_BIT[n];
            }
        }
        assert(self@ =~= old(self)@.checked(n as int));
    }

    /// Latch the counter of unit `n`.
    fn snapshot(&mut self, n: usize)
        requires
            n < 2,
        ensures
            final(self)@ == (SystimerState {
                units: old(self)@.units.update(n as int, old(self)@.units[n as int].snapped()),
                ..old(self)@
            }),
    {
        let u: Unit = self.units[n];
        self.units[n] = Unit {
            counter: u.counter,
            value_lo: u.counter as u32,
            value_hi: ((u.counter >> 32) & 0xF_FFFF) as u32,
            op_valid: true,
        };
    }

    /// Load the counter of unit `n` from its load registers.
    fn load_counter(&mut self, n: usize)
        requires
            n < 2,
        ensures
            final(self)@ == old(self)@.written(if n == 0 { LOAD_APPLY0 } else { LOAD_APPLY1 }, 0),
    {
        let hi_off: u32 = if n == 0 { LOAD_HI0 } else { LOAD_HI1 };
        let lo_off: u32 = if n == 0 { LOAD_LO0 } else { LOAD_LO1 };
        let hi: u32 = self.regs[(hi_off / 4) as usize];
        let lo: u32 = self.regs[(lo_off / 4) as usize];
        self.units[n].counter = ((hi as u64) << 32) | (lo as u64);
        assert(self@ =~= old(self)@.written(if n == 0 { LOAD_APPLY0 } else { LOAD_APPLY1 }, 0));
    }

    /// Interrupt status: raw bits that are enabled.
    pub fn int_st(&self) -> (st: u32)
        ensures
            st == self@.int_st(),
    {
        self.regs[(INT_RAW / 4) as usize] & self.regs[(INT_ENA / 4) as usize]
    }

    /// Read a register.
    pub fn read32(&mut self, offset: u32) -> (v: u32)
        ensures
            v == old(self)@.read(offset),
            final(self)@ == old(self)@,
    {
        match offset {
            OP0 => if self.units[0].op_valid {
                OP_VALUE_VALID
            } else {
                0
            },
            OP1 => if self.units[1].op_valid {
                OP_VALUE_VALID
            } else {
                0
            },
            VALUE_LO0 => self.units[0].value_lo,
            VALUE_HI0 => self.units[0].value_hi,
            VALUE_LO1 => self.units[1].value_lo,
            VALUE_HI1 => self.units[1].value_hi,
            INT_ST => self.int_st(),
            _ => {
                if REAL_TARGET <= offset && offset <= REAL_TARGET + 8 {
                    let n: usize = ((offset - REAL_TARGET) / 4) as usize;
                    let tconf: u32 = self.regs[(TARGET_CONF / 4) as usize + n];
                    proof {
                        lemma_top_bit(tconf);
                    }
                    self.units[(tconf >> 31) as usize].counter as u32
                } else if offset < 4 * REG_COUNT as u32 {
                    self.regs[(offset / 4) as usize]
                } else {
                    0
                }
            },
        }
    }

    /// Write a register.
    pub fn write32(&mut self, offset: u32, value: u32)
        ensures
            final(self)@ == old(self)@.written(offset, value),
    {
        match offset {
            OP0 => if value & OP_UPDATE != 0 {
                self.snapshot(0);
            },
            OP1 => if value & OP_UPDATE != 0 {
                self.snapshot(1);
            },
            LOAD_APPLY0 => self.load_counter(0),
            LOAD_APPLY1 => self.load_counter(1),
            INT_CLR => {
                let raw: u32 = self.regs[(INT_RAW / 4) as usize];
                self.regs[(INT_RAW / 4) as usize] = raw & !value;
            },
            _ => {
                if COMP_LOAD <= offset && offset <= COMP_LOAD + 8 {
                    let n: usize = ((offset - COMP_LOAD) / 4) as usize;
                    self.armed[n] = value != 0;
                    if value != 0 {
                        self.check_alarms();
                    }
                } else if offset < 4 * REG_COUNT as u32 {
                    self.regs[(offset / 4) as usize] = value;
                }
            },
        }
    }
}

/// Interrupt clear: exactly the written bits of `INT_RAW` clear; status is raw
/// and enabled.
pub proof fn law_interrupt_clear(s: SystimerState, v: u32)
    requires
        s.wf(),
    ensures
        s.written(INT_CLR, v).reg(INT_RAW) == s.reg(INT_RAW) & !v,
        s.read(INT_ST) == s.reg(INT_RAW) & s.reg(INT_ENA),
{
}

/// Snapshot handshake: after an update request the latches hold the counter of
/// that moment and the valid bit reads set, however far the counter runs on.
pub proof fn law_snapshot(s: SystimerState)
    requires
        s.wf(),
    ensures
        s.written(OP0, OP_UPDATE).read(VALUE_LO0) == s.units[0].counter as u32,
        s.written(OP0, OP_UPDATE).read(VALUE_HI0) == ((s.units[0].counter >> 32) & 0xF_FFFF) as u32,
        s.written(OP0, OP_UPDATE).read(OP0) == OP_VALUE_VALID,
        s.written(OP1, OP_UPDATE).read(VALUE_LO1) == s.units[1].counter as u32,
        s.written(OP1, OP_UPDATE).read(VALUE_HI1) == ((s.units[1].counter >> 32) & 0xF_FFFF) as u32,
        s.written(OP1, OP_UPDATE).read(OP1) == OP_VALUE_VALID,
{
    crate::bits::lemma_constants();
}

/// A one-shot alarm fires once per arming: firing consumes the arm, and it stays
/// silent until it is armed again, even after its interrupt is cleared.
pub proof fn law_oneshot_fires_once(s: SystimerState, n: int)
    requires
        s.wf(),
        0 <= n < 3,
        !s.periodic(n),
    ensures
        !s.raised(n) && s.checked(n).raised(n) ==> s.armed[n] && !s.checked(n).armed[n],
        !s.armed[n] ==> s.checked(n).reg(INT_RAW) == s.reg(INT_RAW),
{
}

/// An armed one-shot alarm whose target has been reached raises its interrupt.
pub proof fn law_oneshot_fires_at_target(s: SystimerState, n: int)
    requires
        s.wf(),
        0 <= n < 3,
        !s.periodic(n),
        s.armed[n],
        s.work_enabled(n),
        s.count(n) >= s.target(n),
    ensures
        s.checked(n).raised(n),
{
    let raw = s.reg(INT_RAW);
    let bit = TARGET_BIT[n];
    crate::bits::lemma_or_sets(raw, bit);
}

/// A periodic alarm that fires moves its boundary past the present count, by no
/// more than one period, and stays on the period's grid.
pub proof fn law_period_advances(s: SystimerState, n: int, b: u64)
    requires
        s.wf(),
        0 <= n < 3,
        b <= s.count(n) <= COUNTER_MASK,
    ensures
        s.count(n) < s.boundary_after(n, b) <= s.count(n) + s.period(n),
        (s.boundary_after(n, b) - b) % (s.period(n) as int) == 0,
{
    let p = s.period(n) as int;
    let d = s.count(n) - b;
    vstd::arithmetic::div_mod::lemma_fundamental_div_mod(d, p);
    vstd::arithmetic::div_mod::lemma_mod_bound(d, p);
    assert(s.boundary_after(n, b) - b == d + p - d % p);
    assert(d + p - d % p == p * (d / p + 1)) by (nonlinear_arith)
        requires
            d == p * (d / p) + d % p,
    ;
    vstd::arithmetic::div_mod::lemma_mod_multiples_basic(d / p + 1, p);
    assert(p * (d / p + 1) == (d / p + 1) * p) by (nonlinear_arith);
}

/// The counters wrap at 52 bits.
pub proof fn law_counter_wraps(u: Unit)
    ensures
        u.counted().counter <= COUNTER_MASK,
        u.counter < COUNTER_MASK ==> u.counted().counter == u.counter + 1,
        u.counter == COUNTER_MASK ==> u.counted().counter == 0,
{
    let c = u.counter.wrapping_add(1);
    assert(c & 0xF_FFFF_FFFF_FFFFu64 <= 0xF_FFFF_FFFF_FFFFu64 && (c <= 0xF_FFFF_FFFF_FFFFu64 ==> c
        & 0xF_FFFF_FFFF_FFFFu64 == c) && 0x10_0000_0000_0000u64 & 0xF_FFFF_FFFF_FFFFu64 == 0)
        by (bit_vector);
}

} // verus!
