//! CPU PLL force-control register with its lock status.
//!
//! Powering the PLL up starts the lock time; once it has run out the register
//! reads with the lock bit set, until the next write. The lock time counts
//! processor cycles.

use vstd::prelude::*;

verus! {

/// Power-up bit.
pub const PLL_POWER: u32 = 0x8;

/// Lock status bit; read-only.
pub const PLL_LOCK: u32 = 0x0100_0000;

/// 200 us at 240 MHz.
pub const PLL_LOCK_CYCLES: u64 = 48_000;

/// State of the PLL register.
#[verifier::ext_equal]
pub struct PllState {
    /// Register value.
    pub force_ctrl: u32,
    /// Cycle at which the lock comes; 0 while none is awaited.
    pub lock_armed_at: u64,
    /// Cycles since power-on.
    pub cycles: u64,
}

impl PllState {
    pub open spec fn reset() -> PllState {
        PllState { force_ctrl: 0, lock_armed_at: 0, cycles: 0 }
    }

    /// The awaited lock has come.
    pub open spec fn locked(self) -> bool {
        self.lock_armed_at != 0 && self.cycles >= self.lock_armed_at
    }

    pub open spec fn read(self) -> u32 {
        if self.locked() {
            self.force_ctrl | PLL_LOCK
        } else {
            self.force_ctrl
        }
    }

    pub open spec fn after_read(self) -> PllState {
        PllState {
            force_ctrl: self.read(),
            lock_armed_at: if self.locked() {
                0
            } else {
                self.lock_armed_at
            },
            ..self
        }
    }

    pub open spec fn written(self, value: u32) -> PllState {
        PllState {
            force_ctrl: value & !PLL_LOCK,
            lock_armed_at: if value & PLL_POWER != 0 {
                self.cycles.wrapping_add(PLL_LOCK_CYCLES)
            } else {
                0
            },
            ..self
        }
    }

    pub open spec fn ticked(self, cycles: u64) -> PllState {
        PllState { cycles: self.cycles.wrapping_add(cycles), ..self }
    }
}

/// PLL register.
pub struct PllLock {
    force_ctrl: u32,
    lock_armed_at: u64,
    cycles: u64,
}

impl View for PllLock {
    type V = PllState;

    closed spec fn view(&self) -> PllState {
        PllState {
            force_ctrl: self.force_ctrl,
            lock_armed_at: self.lock_armed_at,
            cycles: self.cycles,
        }
    }
}

impl PllLock {
    pub fn new() -> (p: Self)
        ensures
            p@ == PllState::reset(),
    {
        PllLock { force_ctrl: 0, lock_armed_at: 0, cycles: 0 }
    }

    pub fn write32(&mut self, value: u32)
        ensures
            final(self)@ == old(self)@.written(value),
    {
        self.force_ctrl = value & !PLL_LOCK;
        self.lock_armed_at = if value & PLL_POWER != 0 {
            self.cycles.wrapping_add(PLL_LOCK_CYCLES)
        } else {
            0
        };
    }

    pub fn read32(&mut self) -> (v: u32)
        ensures
            v == old(self)@.read(),
            final(self)@ == old(self)@.after_read(),
    {
        if self.lock_armed_at != 0 && self.cycles >= self.lock_armed_at {
            self.force_ctrl = self.force_ctrl | PLL_LOCK;
            self.lock_armed_at = 0;
        }
        self.force_ctrl
    }

    pub fn tick(&mut self, cycles: u64)
        ensures
            final(self)@ == old(self)@.ticked(cycles),
    {
        self.cycles = self.cycles.wrapping_add(cycles);
    }
}

/// After a power-up write the lock bit reads 0 for the lock time and 1 from
/// then on, and it stays set while the register is only read. After a
/// power-down write it never comes.
pub proof fn law_lock_comes_after_lock_time(p: PllState, value: u32, n: u64, m: u64)
    requires
        p.cycles + PLL_LOCK_CYCLES <= u64::MAX,
        p.cycles + n <= u64::MAX,
    ensures
        value & PLL_POWER != 0 ==> (p.written(value).ticked(n).read() & PLL_LOCK != 0 <==> n
            >= PLL_LOCK_CYCLES),
        value & PLL_POWER != 0 && n >= PLL_LOCK_CYCLES ==> p.written(value).ticked(
            n,
        ).after_read().ticked(m).read() & PLL_LOCK != 0,
        value & PLL_POWER == 0 ==> p.written(value).ticked(n).read() & PLL_LOCK == 0,
{
    crate::bits::lemma_masks(value, PLL_LOCK, 0);
}

} // verus!
