//! Pads and the GPIO matrix, as far as the other blocks see them.
//!
//! The pad registers are plain values that the GPIO block keeps current: the
//! external input levels, the output and enable words, for each pad the matrix
//! signal it is given, and for each matrix input the pad that feeds it. The
//! readback word and the output mask have 32 bits, so only pads 0..=31 take
//! part in them.

use vstd::prelude::*;

verus! {

/// Pads of the chip.
pub const PIN_COUNT: usize = 46;

/// Matrix signals.
pub const SIGNALS: usize = 256;

/// Output selection that drives a pad from the output word.
pub const SIG_GPIO_OUT: u32 = 0x100;

/// Pad registers and matrix routing.
#[verifier::ext_equal]
pub struct PadState {
    /// Levels applied from outside, pads 0..=31.
    pub raw_in: u32,
    /// Levels of the pads past the readback word.
    pub high_in: Seq<u32>,
    /// Output word and output enables, pads 0..=45.
    pub out: u64,
    pub enable: u64,
    /// Matrix signal of each pad.
    pub out_sel: Seq<u32>,
    /// Pad and inversion that feed each matrix input.
    pub in_sel: Seq<Option<(u32, bool)>>,
}

impl PadState {
    pub open spec fn wf(self) -> bool {
        &&& self.high_in.len() == PIN_COUNT
        &&& self.out_sel.len() == PIN_COUNT
        &&& self.in_sel.len() == SIGNALS
    }

    pub open spec fn reset() -> PadState {
        PadState {
            raw_in: 0,
            high_in: Seq::new(PIN_COUNT as nat, |i: int| 0u32),
            out: 0,
            enable: 0,
            out_sel: Seq::new(PIN_COUNT as nat, |i: int| SIG_GPIO_OUT),
            in_sel: Seq::new(SIGNALS as nat, |i: int| None),
        }
    }

    /// Pad `i` drives its output.
    pub open spec fn enabled(self, i: int) -> bool {
        0 <= i < PIN_COUNT && (self.enable >> i as u64) & 1 == 1
    }

    pub open spec fn out_bit(self, i: int) -> u32 {
        ((self.out >> i as u64) & 1) as u32
    }

    /// Matrix signal given to pad `i`.
    pub open spec fn sel(self, i: int) -> u32 {
        if 0 <= i < self.out_sel.len() {
            self.out_sel[i]
        } else {
            SIG_GPIO_OUT
        }
    }

    /// Pad `i` is driven from the output word.
    pub open spec fn plain(self, i: int) -> bool {
        self.sel(i) == SIG_GPIO_OUT || self.sel(i) == 0
    }

    /// Level driven on pad `i`, given the level of its matrix signal.
    pub open spec fn driven(self, i: int, signal: u32) -> u32 {
        if self.plain(i) {
            self.out_bit(i)
        } else {
            signal
        }
    }

    /// Routing of matrix input `sig`.
    pub open spec fn route(self, sig: u32) -> Option<(u32, bool)> {
        if sig < self.in_sel.len() {
            self.in_sel[sig as int]
        } else {
            None
        }
    }

    /// Level of a pad past the readback word: its output bit while it drives,
    /// else the level applied from outside.
    pub open spec fn high_level(self, pin: u32) -> u32 {
        if self.enabled(pin as int) {
            self.out_bit(pin as int)
        } else if pin < self.high_in.len() {
            self.high_in[pin as int] & 1
        } else {
            0
        }
    }

    /// Level of a pad taken without the readback: its output bit while it drives,
    /// else the level applied from outside.
    pub open spec fn pin_level(self, pin: u32) -> u32 {
        if pin < 32 && !self.enabled(pin as int) {
            (self.raw_in >> pin) & 1
        } else {
            self.high_level(pin)
        }
    }

    /// Level at matrix input `sig` for the readback word `rb`; `idle` where the
    /// input is fed by no pad.
    pub open spec fn input(self, sig: u32, rb: u32, idle: u32) -> u32 {
        match self.route(sig) {
            Some((pin, inv)) => {
                let inverted = if inv {
                    1u32
                } else {
                    0u32
                };
                if pin < 32 {
                    ((rb >> pin) & 1) ^ inverted
                } else {
                    self.high_level(pin) ^ inverted
                }
            },
            None => idle,
        }
    }
}

/// Pad registers and matrix routing.
pub struct Pads {
    raw_in: u32,
    high_in: [u32; 46],
    out: u64,
    enable: u64,
    out_sel: [u32; 46],
    in_sel: [Option<(u32, bool)>; 256],
}

impl View for Pads {
    type V = PadState;

    closed spec fn view(&self) -> PadState {
        PadState {
            raw_in: self.raw_in,
            high_in: self.high_in@,
            out: self.out,
            enable: self.enable,
            out_sel: self.out_sel@,
            in_sel: self.in_sel@,
        }
    }
}

/// The pad tables have their sizes.
pub proof fn lemma_pads_wf(p: Pads)
    ensures
        p@.wf(),
{
}

impl Pads {
    pub fn new() -> (p: Self)
        ensures
            p@ == PadState::reset(),
            p@.wf(),
    {
        let p = Pads {
            raw_in: 0,
            high_in: [0u32; 46],
            out: 0,
            enable: 0,
            out_sel: [SIG_GPIO_OUT; 46],
            in_sel: [None; 256],
        };
        assert(p@ =~= PadState::reset());
        p
    }

    /// Apply external levels to pads 0..=31.
    pub fn set_raw_in(&mut self, levels: u32)
        ensures
            final(self)@ == (PadState { raw_in: levels, ..old(self)@ }),
    {
        self.raw_in = levels;
    }

    /// Level of a pad past the readback word.
    pub fn set_high_in(&mut self, pin: usize, level: u32)
        ensures
            final(self)@ == if pin < PIN_COUNT {
                PadState { high_in: old(self)@.high_in.update(pin as int, level), ..old(self)@ }
            } else {
                old(self)@
            },
    {
        if pin < PIN_COUNT {
            self.high_in[pin] = level;
        }
    }

    /// Output word and output enables.
    pub fn set_outputs(&mut self, out: u64, enable: u64)
        ensures
            final(self)@ == (PadState { out: out, enable: enable, ..old(self)@ }),
    {
        self.out = out;
        self.enable = enable;
    }

    /// Give a matrix signal to a pad.
    pub fn set_out_sel(&mut self, pin: usize, sel: u32)
        ensures
            final(self)@ == if pin < PIN_COUNT {
                PadState { out_sel: old(self)@.out_sel.update(pin as int, sel), ..old(self)@ }
            } else {
                old(self)@
            },
    {
        if pin < PIN_COUNT {
            self.out_sel[pin] = sel;
        }
    }

    /// Feed a matrix input from a pad, or disconnect it.
    pub fn set_in_sel(&mut self, sig: usize, route: Option<(u32, bool)>)
        ensures
            final(self)@ == if sig < SIGNALS {
                PadState { in_sel: old(self)@.in_sel.update(sig as int, route), ..old(self)@ }
            } else {
                old(self)@
            },
    {
        if sig < SIGNALS {
            self.in_sel[sig] = route;
        }
    }

    pub fn raw_in(&self) -> (v: u32)
        ensures
            v == self@.raw_in,
    {
        self.raw_in
    }

    pub fn enabled(&self, i: usize) -> (r: bool)
        ensures
            r == self@.enabled(i as int),
    {
        i < PIN_COUNT && (self.enable >> i as u64) & 1 == 1
    }

    pub fn out_bit(&self, i: usize) -> (v: u32)
        requires
            i < 64,
        ensures
            v == self@.out_bit(i as int),
    {
        ((self.out >> i as u64) & 1) as u32
    }

    pub fn out_sel(&self, i: usize) -> (sel: u32)
        ensures
            sel == self@.sel(i as int),
    {
        if i < PIN_COUNT {
            self.out_sel[i]
        } else {
            SIG_GPIO_OUT
        }
    }

    /// Output word of pads 0..=31.
    pub fn out_low(&self) -> (v: u32)
        ensures
            v == self@.out as u32,
    {
        self.out as u32
    }

    /// Output enables of pads 0..=31.
    pub fn enable_low(&self) -> (v: u32)
        ensures
            v == self@.enable as u32,
    {
        self.enable as u32
    }

    /// Routing of matrix input `sig`.
    pub fn route(&self, sig: u32) -> (r: Option<(u32, bool)>)
        ensures
            r == self@.route(sig),
    {
        if (sig as usize) < SIGNALS {
            self.in_sel[sig as usize]
        } else {
            None
        }
    }

    /// Level of a pad taken without the readback.
    pub fn pin_level(&self, pin: u32) -> (level: u32)
        ensures
            level == self@.pin_level(pin),
    {
        if self.enabled(pin as usize) {
            self.out_bit(pin as usize)
        } else if pin < 32 {
            (self.raw_in >> pin) & 1
        } else if (pin as usize) < PIN_COUNT {
            self.high_in[pin as usize] & 1
        } else {
            0
        }
    }

    /// Level at matrix input `sig` for the readback word `rb`.
    pub fn input(&self, sig: u32, rb: u32, idle: u32) -> (level: u32)
        ensures
            level == self@.input(sig, rb, idle),
    {
        match self.route(sig) {
            Some((pin, inv)) => {
                let inverted: u32 = if inv {
                    1
                } else {
                    0
                };
                if pin < 32 {
                    ((rb >> pin) & 1) ^ inverted
                } else if self.enabled(pin as usize) {
                    self.out_bit(pin as usize) ^ inverted
                } else if (pin as usize) < PIN_COUNT {
                    (self.high_in[pin as usize] & 1) ^ inverted
                } else {
                    0 ^ inverted
                }
            },
            None => idle,
        }
    }
}

} // verus!
