//! Capacitive touch sensor (pads 1 to 14).
//!
//! Every pad always reads as measured, and its counter reads the value that the
//! host injected. Pad `n` is active while its threshold is programmed and its
//! counter is below it (counters fall when touched). No interrupt is wired.

use vstd::prelude::*;

verus! {

/// Number of touch pads.
pub const TOUCH_PADS: usize = 14;

/// Words in the register window.
pub const REG_WORDS: usize = 64;

/// First offset of the window within the sensor page.
pub const TOUCH_OFF_START: u32 = 0x5C;

/// One past the last offset of the window.
pub const TOUCH_OFF_END: u32 = 0x15C;

pub const TOUCH_CONF_OFF: u32 = 0x5C;

/// Threshold of pad `n` is at `+ 4 * (n - 1)`.
pub const TOUCH_THRES_BASE: u32 = 0x64;

pub const TOUCH_CHN_ST_OFF: u32 = 0x9C;

/// Counter of pad `n` is at `+ 4 * (n - 1)`.
pub const TOUCH_STATUS_BASE: u32 = 0xA4;

pub const TOUCH_STATUS_END: u32 = 0xDC;

/// Measurement done.
pub const MEAS_DONE: u32 = 1 << 31;

/// Channel clear bits of the channel status register.
pub const CHANNEL_CLR: u32 = 0x3FFF_8000;

/// Counters and thresholds are 22 bits wide.
pub const DATA_MASK: u32 = 0x3F_FFFF;

/// The touch sensor.
#[verifier::ext_equal]
pub struct TouchState {
    pub regs: Seq<u32>,
    /// Counter of each pad; index 0 is unused.
    pub injected: Seq<u32>,
}

impl TouchState {
    pub open spec fn wf(self) -> bool {
        self.regs.len() == REG_WORDS && self.injected.len() == TOUCH_PADS + 1
    }

    pub open spec fn reset() -> Self {
        TouchState {
            regs: Seq::new(REG_WORDS as nat, |i: int| 0u32),
            injected: Seq::new((TOUCH_PADS + 1) as nat, |i: int| 0u32),
        }
    }

    pub open spec fn reg(self, off: u32) -> u32 {
        self.regs[(off - TOUCH_OFF_START) / 4]
    }

    pub open spec fn thresh(self, pad: int) -> u32 {
        self.regs[pad + 1] & DATA_MASK
    }

    /// Pad `pad` is touched: its threshold is programmed and its counter is
    /// below it.
    pub open spec fn touched(self, pad: int) -> bool {
        self.thresh(pad) != 0 && self.injected[pad] < self.thresh(pad)
    }

    /// Bit map of the touched pads among `1..=n`, pad 1 in bit 0.
    pub open spec fn active(self, n: nat) -> u32
        decreases n,
    {
        if n == 0 {
            0
        } else if self.touched(n as int) {
            self.active((n - 1) as nat) | (1u32 << ((n - 1) as u32))
        } else {
            self.active((n - 1) as nat)
        }
    }

    pub open spec fn any_touched(self) -> bool {
        exists|pad: int| 1 <= pad <= TOUCH_PADS && #[trigger] self.touched(pad)
    }

    pub open spec fn with_injected(self, pad: int, value: u32) -> Self {
        if 1 <= pad <= TOUCH_PADS {
            TouchState { injected: self.injected.update(pad, value & DATA_MASK), ..self }
        } else {
            self
        }
    }

    /// The offset names a word of the window.
    pub open spec fn in_window(off: u32) -> bool {
        TOUCH_OFF_START <= off < TOUCH_OFF_END && off % 4 == 0
    }

    pub open spec fn read(self, off: u32) -> u32 {
        if off == TOUCH_CHN_ST_OFF {
            (self.reg(off) & CHANNEL_CLR) | self.active(TOUCH_PADS as nat) | MEAS_DONE
        } else if TOUCH_STATUS_BASE <= off < TOUCH_STATUS_END && off % 4 == 0 {
            (self.reg(off) & !DATA_MASK) | self.injected[(off - TOUCH_STATUS_BASE) / 4 + 1]
        } else if Self::in_window(off) {
            self.reg(off)
        } else {
            0
        }
    }

    pub open spec fn written(self, off: u32, value: u32) -> Self {
        let i = (off - TOUCH_OFF_START) / 4;
        if off == TOUCH_CHN_ST_OFF {
            TouchState {
                regs: self.regs.update(i, self.regs[i] & !(value & CHANNEL_CLR)),
                ..self
            }
        } else if Self::in_window(off) {
            TouchState { regs: self.regs.update(i, value), ..self }
        } else {
            self
        }
    }
}

/// The touch sensor.
pub struct Touch {
    regs: [u32; REG_WORDS],
    injected: [u32; 15],
}

impl View for Touch {
    type V = TouchState;

    closed spec fn view(&self) -> TouchState {
        TouchState { regs: self.regs@, injected: self.injected@ }
    }
}

impl Clone for Touch {
    fn clone(&self) -> (t: Self)
        ensures
            t@ == self@,
    {
        Touch { regs: self.regs, injected: self.injected }
    }
}

impl Default for Touch {
    fn default() -> (t: Self)
        ensures
            t@ == TouchState::reset(),
    {
        Self::new()
    }
}

/// The tables of every value have their sizes.
pub proof fn lemma_sizes(t: Touch)
    ensures
        t@.wf(),
{
}

impl Touch {
    pub fn new() -> (t: Self)
        ensures
            t@ == TouchState::reset(),
            t@.wf(),
    {
        let t = Touch { regs: [0u32; REG_WORDS], injected: [0u32; 15] };
        assert(t@ =~= TouchState::reset());
        t
    }

    /// Set the counter that pad 1..=14 reports; other pads are ignored.
    pub fn inject(&mut self, pad: usize, value: u32)
        ensures
            final(self)@ == old(self)@.with_injected(pad as int, value),
    {
        if 1 <= pad && pad <= TOUCH_PADS {
            self.injected[pad] = value & DATA_MASK;
        }
    }

    /// Bit map of the touched pads.
    fn active(&self) -> (bits: u32)
        ensures
            bits == self@.active(TOUCH_PADS as nat),
    {
        let mut bits: u32 = 0;
        let mut pad: usize = 0;
        while pad < TOUCH_PADS
            invariant
                pad <= TOUCH_PADS,
                bits == self@.active(pad as nat),
            decreases TOUCH_PADS - pad,
        {
            pad = pad + 1;
            let th: u32 = self.regs[pad + 1] & DATA_MASK;
            if th != 0 && self.injected[pad] < th {
                bits = bits | (1u32 << ((pad - 1) as u32));
            }
        }
        bits
    }

    /// True while any pad is touched.
    pub fn any_touched(&self) -> (r: bool)
        ensures
            r == self@.any_touched(),
    {
        let bits: u32 = self.active();
        proof {
            if self@.any_touched() {
                let pad = choose|pad: int| 1 <= pad <= TOUCH_PADS && #[trigger] self@.touched(pad);
                lemma_active_bit(self@, TOUCH_PADS as nat, pad);
                crate::bits::lemma_set_bit(0, 0, (pad - 1) as u32);
            } else {
                lemma_none_active(self@, TOUCH_PADS as nat);
            }
        }
        bits != 0
    }

    pub fn read32(&mut self, offset: u32) -> (v: u32)
        ensures
            v == old(self)@.read(offset),
            final(self)@ == old(self)@,
    {
        if offset == TOUCH_CHN_ST_OFF {
            let stored: u32 = self.regs[((TOUCH_CHN_ST_OFF - TOUCH_OFF_START) / 4) as usize];
            (stored & CHANNEL_CLR) | self.active() | MEAS_DONE
        } else if TOUCH_OFF_START <= offset && offset < TOUCH_OFF_END && offset % 4 == 0 {
            let stored: u32 = self.regs[((offset - TOUCH_OFF_START) / 4) as usize];
            if TOUCH_STATUS_BASE <= offset && offset < TOUCH_STATUS_END {
                let pad: usize = ((offset - TOUCH_STATUS_BASE) / 4) as usize + 1;
                (stored & !DATA_MASK) | self.injected[pad]
            } else {
                stored
            }
        } else {
            0
        }
    }

    pub fn write32(&mut self, offset: u32, value: u32)
        ensures
            final(self)@ == old(self)@.written(offset, value),
    {
        if offset == TOUCH_CHN_ST_OFF {
            let i: usize = ((TOUCH_CHN_ST_OFF - TOUCH_OFF_START) / 4) as usize;
            self.regs[i] = self.regs[i] & !(value & CHANNEL_CLR);
        } else if TOUCH_OFF_START <= offset && offset < TOUCH_OFF_END && offset % 4 == 0 {
            self.regs[((offset - TOUCH_OFF_START) / 4) as usize] = value;
        }
    }
}

/// The bit of each pad in the map says whether it is touched.
proof fn lemma_active_bit(s: TouchState, n: nat, pad: int)
    requires
        1 <= pad <= 32,
        n <= 32,
    ensures
        crate::bits::bit(s.active(n), (pad - 1) as u32) == if pad <= n && s.touched(pad) {
            1u32
        } else {
            0
        },
    decreases n,
{
    if n == 0 {
        crate::bits::lemma_set_bit(0, 0, (pad - 1) as u32);
    } else {
        lemma_active_bit(s, (n - 1) as nat, pad);
        crate::bits::lemma_set_bit(s.active((n - 1) as nat), (n - 1) as u32, (pad - 1) as u32);
    }
}

/// With no pad touched the map is empty.
proof fn lemma_none_active(s: TouchState, n: nat)
    requires
        forall|pad: int| 1 <= pad <= n ==> !#[trigger] s.touched(pad),
    ensures
        s.active(n) == 0,
    decreases n,
{
    if n > 0 {
        lemma_none_active(s, (n - 1) as nat);
    }
}

/// The active bit map has bit `pad - 1` set exactly while pad `pad` is touched.
pub proof fn law_active_bits(s: TouchState, pad: int)
    requires
        1 <= pad <= TOUCH_PADS,
    ensures
        crate::bits::bit(s.active(TOUCH_PADS as nat), (pad - 1) as u32) == 1 <==> s.touched(pad),
{
    lemma_active_bit(s, TOUCH_PADS as nat, pad);
}

/// A pad's status register reads back its injected counter; a pad whose
/// threshold is not programmed is never touched.
pub proof fn law_injected_counter(s: TouchState, pad: int, value: u32)
    requires
        s.wf(),
        1 <= pad <= TOUCH_PADS,
    ensures
        s.with_injected(pad, value).injected[pad] == value & DATA_MASK,
        s.with_injected(pad, value).read((TOUCH_STATUS_BASE + 4 * (pad - 1)) as u32) == (s.reg(
            (TOUCH_STATUS_BASE + 4 * (pad - 1)) as u32,
        ) & !DATA_MASK) | (value & DATA_MASK),
        s.thresh(pad) == 0 ==> !s.touched(pad),
{
}

/// Measurements always read as done.
pub proof fn law_measurement_done(s: TouchState)
    ensures
        s.read(TOUCH_CHN_ST_OFF) & MEAS_DONE == MEAS_DONE,
{
    crate::bits::lemma_or_sets(
        (s.reg(TOUCH_CHN_ST_OFF) & CHANNEL_CLR) | s.active(TOUCH_PADS as nat),
        MEAS_DONE,
    );
}

} // verus!
