//! What the chip decides for the blocks outside this crate: whether they are
//! clocked, which of their register writes get through, which levels they see at
//! their inputs, and what they report.

use super::link::late_camera;
use super::{EmuEvent, Soc, SocState};
use vstd::prelude::*;

verus! {

broadcast use crate::soc::sizes::lemma_sized;

/// Register pages of the outside blocks whose start bits the clock gates hold back.
pub const I2C0_PAGE: u32 = 0x6001_3000;

pub const I2C1_PAGE: u32 = 0x6002_7000;

pub const SDMMC_PAGE: u32 = 0x6002_8000;

pub const AES_PAGE: u32 = 0x6003_A000;

pub const SHA_PAGE: u32 = 0x6003_B000;

pub const RSA_PAGE: u32 = 0x6003_C000;

pub const DS_PAGE: u32 = 0x6003_D000;

pub const HMAC_PAGE: u32 = 0x6003_E000;

pub const LCD_CAM_PAGE: u32 = 0x6004_1000;

/// Bits that start something.
pub const I2C_TRANS_START: u32 = 0x20;

pub const LCD_START: u32 = 0x0800_0000;

pub const CAM_START: u32 = 0x2000_0000;

pub const SDMMC_CMD_START: u32 = 0x8000_0000;

/// A block outside this crate, or a pump that feeds one.
#[derive(Clone, Copy, PartialEq, Eq, Structural)]
pub enum OutsideBlock {
    Ledc,
    I2c0,
    I2c1,
    Adc,
    Rmt,
    Mcpwm0,
    Mcpwm1,
    Pcnt,
    LcdCam,
    I2s0,
    I2s1,
    /// Moves words between chains and the audio FIFOs.
    AudioPump,
    /// Moves captured words into chains.
    CameraPump,
    SigmaDelta,
    /// Edge and level detection of the pads.
    PadInterrupts,
    Sha,
    Aes,
    Rsa,
    Hmac,
    Ds,
    Sdmmc,
}

/// How a closed clock gate treats a register write.
#[derive(Clone, Copy, PartialEq, Eq, Structural)]
pub enum GatedWrite {
    /// It lands without these bits.
    Masked(u32),
    /// It is lost.
    Lost,
    /// It is lost if it sets any of these bits.
    LostIf(u32),
}

/// The outside block of a register page whose start writes are gated.
pub open spec fn gated_block(page: u32) -> Option<OutsideBlock> {
    if page == I2C0_PAGE {
        Some(OutsideBlock::I2c0)
    } else if page == I2C1_PAGE {
        Some(OutsideBlock::I2c1)
    } else if page == SDMMC_PAGE {
        Some(OutsideBlock::Sdmmc)
    } else if page == AES_PAGE {
        Some(OutsideBlock::Aes)
    } else if page == SHA_PAGE {
        Some(OutsideBlock::Sha)
    } else if page == RSA_PAGE {
        Some(OutsideBlock::Rsa)
    } else if page == DS_PAGE {
        Some(OutsideBlock::Ds)
    } else if page == HMAC_PAGE {
        Some(OutsideBlock::Hmac)
    } else if page == LCD_CAM_PAGE {
        Some(OutsideBlock::LcdCam)
    } else {
        None
    }
}

/// What a block without its clock does with a write to register `off`; `None` where
/// it lands as it is.
pub open spec fn gated_write(block: OutsideBlock, off: u32) -> Option<GatedWrite> {
    match block {
        OutsideBlock::I2c0 | OutsideBlock::I2c1 => if off == 0x04 {
            Some(GatedWrite::Masked(I2C_TRANS_START))
        } else {
            None
        },
        OutsideBlock::LcdCam => if off == 0x14 {
            Some(GatedWrite::Masked(LCD_START))
        } else if off == 0x08 {
            Some(GatedWrite::Masked(CAM_START))
        } else {
            None
        },
        OutsideBlock::Sha => if off == 0x10 || off == 0x14 || off == 0x1C || off == 0x20 {
            Some(GatedWrite::Lost)
        } else {
            None
        },
        OutsideBlock::Aes => if off == 0x48 {
            Some(GatedWrite::Lost)
        } else {
            None
        },
        OutsideBlock::Hmac => if off == 0x40 {
            Some(GatedWrite::Lost)
        } else {
            None
        },
        OutsideBlock::Rsa => if off == 0x80C {
            Some(GatedWrite::LostIf(1))
        } else {
            None
        },
        OutsideBlock::Ds => if off == 0xE00 {
            Some(GatedWrite::LostIf(0xFFFF_FFFF))
        } else {
            None
        },
        OutsideBlock::Sdmmc => if off == 0x2C {
            Some(GatedWrite::LostIf(SDMMC_CMD_START))
        } else {
            None
        },
        _ => None,
    }
}

impl SocState {
    /// The clock of an outside block runs. Sigma-delta modulators and pad
    /// interrupts have no gate.
    pub open spec fn outside_clocked(self, block: OutsideBlock) -> bool {
        match block {
            OutsideBlock::Ledc => self.clk_on(false, 11),
            OutsideBlock::I2c0 => self.clk_on(false, 7),
            OutsideBlock::I2c1 => self.clk_on(false, 18),
            OutsideBlock::Adc => self.clk_on(false, 28),
            OutsideBlock::Rmt => self.clk_on(false, 9),
            OutsideBlock::Mcpwm0 => self.clk_on(false, 17),
            OutsideBlock::Mcpwm1 => self.clk_on(false, 20),
            OutsideBlock::Pcnt => self.clk_on(false, 10),
            OutsideBlock::LcdCam => self.clk_on(true, 8),
            OutsideBlock::I2s0 => self.clk_on(false, 4),
            OutsideBlock::I2s1 => self.clk_on(false, 21),
            OutsideBlock::AudioPump => self.clk_on(true, 6),
            OutsideBlock::CameraPump => self.clk_on(true, 8) && self.clk_on(true, 6),
            OutsideBlock::SigmaDelta => true,
            OutsideBlock::PadInterrupts => true,
            OutsideBlock::Sha => self.clk_on(true, 2),
            OutsideBlock::Aes => self.clk_on(true, 1),
            OutsideBlock::Rsa => self.clk_on(true, 3),
            OutsideBlock::Hmac => self.clk_on(true, 5),
            OutsideBlock::Ds => self.clk_on(true, 4),
            OutsideBlock::Sdmmc => self.clk_on(true, 7),
        }
    }

    /// Value that a write to an outside register lands with; `None` where the write
    /// is lost.
    pub open spec fn outside_value(self, page: u32, off: u32, value: u32) -> Option<u32> {
        match gated_block(page) {
            Some(block) => if self.outside_clocked(block) {
                Some(value)
            } else {
                match gated_write(block, off) {
                    None => Some(value),
                    Some(GatedWrite::Masked(bits)) => Some(value & !bits),
                    Some(GatedWrite::Lost) => None,
                    Some(GatedWrite::LostIf(bits)) => if value & bits != 0 {
                        None
                    } else {
                        Some(value)
                    },
                }
            },
            None => Some(value),
        }
    }

    /// Level that a remote-control receiver samples at input `sig`: the readback of
    /// a low pad. Inputs fed by no pad, or by one past the readback, are pulled up.
    pub open spec fn rmt_input(self, sig: u32) -> u32 {
        match self.pads.route(sig) {
            Some((pin, inv)) => if pin < 32 {
                self.pads.input(sig, self.readback(), 1)
            } else {
                1
            },
            None => 1,
        }
    }

    /// Level that a motor-control block samples at a capture, fault or sync input:
    /// what the pad shows, low where no pad feeds it.
    pub open spec fn mcpwm_input(self, sig: u32) -> u32 {
        self.pads.input(sig, self.readback(), 0)
    }

    /// Level that a pulse counter samples: of a pad that drives, its output bit
    /// whatever block drives it; low where no pad feeds the input.
    pub open spec fn pcnt_input(self, sig: u32) -> u32 {
        match self.pads.route(sig) {
            Some((pin, inv)) => self.pads.pin_level(pin) ^ if inv {
                1u32
            } else {
                0u32
            },
            None => 0,
        }
    }
}

/// The outside block of a register page whose start writes are gated.
fn find_gated_block(page: u32) -> (r: Option<OutsideBlock>)
    ensures
        r == gated_block(page),
{
    if page == I2C0_PAGE {
        Some(OutsideBlock::I2c0)
    } else if page == I2C1_PAGE {
        Some(OutsideBlock::I2c1)
    } else if page == SDMMC_PAGE {
        Some(OutsideBlock::Sdmmc)
    } else if page == AES_PAGE {
        Some(OutsideBlock::Aes)
    } else if page == SHA_PAGE {
        Some(OutsideBlock::Sha)
    } else if page == RSA_PAGE {
        Some(OutsideBlock::Rsa)
    } else if page == DS_PAGE {
        Some(OutsideBlock::Ds)
    } else if page == HMAC_PAGE {
        Some(OutsideBlock::Hmac)
    } else if page == LCD_CAM_PAGE {
        Some(OutsideBlock::LcdCam)
    } else {
        None
    }
}

/// What a block without its clock does with a write to register `off`.
fn find_gated_write(block: OutsideBlock, off: u32) -> (r: Option<GatedWrite>)
    ensures
        r == gated_write(block, off),
{
    match block {
        OutsideBlock::I2c0 if off == 0x04 => Some(GatedWrite::Masked(I2C_TRANS_START)),
        OutsideBlock::I2c1 if off == 0x04 => Some(GatedWrite::Masked(I2C_TRANS_START)),
        OutsideBlock::LcdCam if off == 0x14 => Some(GatedWrite::Masked(LCD_START)),
        OutsideBlock::LcdCam if off == 0x08 => Some(GatedWrite::Masked(CAM_START)),
        OutsideBlock::Sha if off == 0x10 || off == 0x14 || off == 0x1C || off == 0x20 => Some(
            GatedWrite::Lost,
        ),
        OutsideBlock::Aes if off == 0x48 => Some(GatedWrite::Lost),
        OutsideBlock::Hmac if off == 0x40 => Some(GatedWrite::Lost),
        OutsideBlock::Rsa if off == 0x80C => Some(GatedWrite::LostIf(1)),
        OutsideBlock::Ds if off == 0xE00 => Some(GatedWrite::LostIf(0xFFFF_FFFF)),
        OutsideBlock::Sdmmc if off == 0x2C => Some(GatedWrite::LostIf(SDMMC_CMD_START)),
        _ => None,
    }
}

impl Soc {
    /// The clock of an outside block runs: it may take its part of a cycle.
    pub fn outside_clocked(&self, block: OutsideBlock) -> (r: bool)
        ensures
            r == self@.outside_clocked(block),
    {
        match block {
            OutsideBlock::Ledc => self.clk_on(false, 11),
            OutsideBlock::I2c0 => self.clk_on(false, 7),
            OutsideBlock::I2c1 => self.clk_on(false, 18),
            OutsideBlock::Adc => self.clk_on(false, 28),
            OutsideBlock::Rmt => self.clk_on(false, 9),
            OutsideBlock::Mcpwm0 => self.clk_on(false, 17),
            OutsideBlock::Mcpwm1 => self.clk_on(false, 20),
            OutsideBlock::Pcnt => self.clk_on(false, 10),
            OutsideBlock::LcdCam => self.clk_on(true, 8),
            OutsideBlock::I2s0 => self.clk_on(false, 4),
            OutsideBlock::I2s1 => self.clk_on(false, 21),
            OutsideBlock::AudioPump => self.clk_on(true, 6),
            OutsideBlock::CameraPump => self.clk_on(true, 8) && self.clk_on(true, 6),
            OutsideBlock::SigmaDelta => true,
            OutsideBlock::PadInterrupts => true,
            OutsideBlock::Sha => self.clk_on(true, 2),
            OutsideBlock::Aes => self.clk_on(true, 1),
            OutsideBlock::Rsa => self.clk_on(true, 3),
            OutsideBlock::Hmac => self.clk_on(true, 5),
            OutsideBlock::Ds => self.clk_on(true, 4),
            OutsideBlock::Sdmmc => self.clk_on(true, 7),
        }
    }

    /// Value that a write to an outside register lands with; `None` where the write
    /// is lost.
    pub fn outside_value(&self, page: u32, off: u32, value: u32) -> (v: Option<u32>)
        ensures
            v == self@.outside_value(page, off, value),
    {
        match find_gated_block(page) {
            Some(block) => if self.outside_clocked(block) {
                Some(value)
            } else {
                match find_gated_write(block, off) {
                    None => Some(value),
                    Some(GatedWrite::Masked(bits)) => Some(value & !bits),
                    Some(GatedWrite::Lost) => None,
                    Some(GatedWrite::LostIf(bits)) => if value & bits != 0 {
                        None
                    } else {
                        Some(value)
                    },
                }
            },
            None => Some(value),
        }
    }

    /// Find out whether a write to the camera's registers starts its stream late:
    /// as [`late_camera`] does, but from the value that the write lands with.
    pub fn late_capture_start(
        &self,
        off: u32,
        value: u32,
        active: bool,
        fresh: bool,
        waiting: [bool; 5],
    ) -> (r: Option<usize>)
        ensures
            r matches Some(ch) ==> ch < 5 && crate::soc::link::late_capture(
                off,
                self@.outside_value(LCD_CAM_PAGE, off, value)->0,
                active,
                fresh,
                waiting@,
                ch as int,
            ),
            r is None ==> forall|ch: int|
                0 <= ch < 5 ==> !crate::soc::link::late_capture(
                    off,
                    self@.outside_value(LCD_CAM_PAGE, off, value)->0,
                    active,
                    fresh,
                    waiting@,
                    ch,
                ),
    {
        match self.outside_value(LCD_CAM_PAGE, off, value) {
            Some(v) => late_camera(off, v, active, fresh, waiting),
            None => None,
        }
    }

    /// Level at a remote-control receiver's input.
    pub fn rmt_input(&mut self, sig: u32) -> (level: u32)
        requires
            old(self)@.wf(),
        ensures
            level == old(self)@.rmt_input(sig),
            final(self)@ == old(self)@.after_readback(),
            final(self)@.wf(),
    {
        let rb: u32 = self.gpio_in_readback();
        match self.pads.route(sig) {
            Some((pin, _)) => if pin < 32 {
                self.pads.input(sig, rb, 1)
            } else {
                1
            },
            None => 1,
        }
    }

    /// Level at a capture, fault or sync input of a motor-control block.
    pub fn mcpwm_input(&mut self, sig: u32) -> (level: u32)
        requires
            old(self)@.wf(),
        ensures
            level == old(self)@.mcpwm_input(sig),
            final(self)@ == old(self)@.after_readback(),
            final(self)@.wf(),
    {
        let rb: u32 = self.gpio_in_readback();
        self.pads.input(sig, rb, 0)
    }

    /// Level at an input of the pulse counter.
    pub fn pcnt_input(&self, sig: u32) -> (level: u32)
        ensures
            level == self@.pcnt_input(sig),
    {
        match self.pads.route(sig) {
            Some((pin, inv)) => self.pads.pin_level(pin) ^ if inv {
                1u32
            } else {
                0u32
            },
            None => 0,
        }
    }

    /// Report an event of an outside block, behind those reported before.
    pub fn queue_event(&mut self, e: EmuEvent)
        requires
            old(self)@.wf(),
        ensures
            final(self)@ == (SocState { events: old(self)@.events.push(e), ..old(self)@ }),
            final(self)@.wf(),
    {
        reveal(SocState::wf);
        self.events.push(e);
        assert(self@ =~= SocState { events: old(self)@.events.push(e), ..old(self)@ });
    }
}

/// A clocked outside block gets every write as it is. One without its clock gets
/// none of the start bits that its gate masks; of all other registers, and of values
/// that start nothing, it gets every write as it is.
pub proof fn law_gate_holds_back_starts(s: SocState, page: u32, block: OutsideBlock, off: u32, v: u32)
    requires
        gated_block(page) == Some(block),
    ensures
        s.outside_clocked(block) ==> s.outside_value(page, off, v) == Some(v),
        gated_write(block, off) is None ==> s.outside_value(page, off, v) == Some(v),
        !s.outside_clocked(block) ==> match gated_write(block, off) {
            Some(GatedWrite::Masked(bits)) => s.outside_value(page, off, v) is Some
                && s.outside_value(page, off, v)->0 & bits == 0,
            Some(GatedWrite::Lost) => s.outside_value(page, off, v) is None,
            Some(GatedWrite::LostIf(bits)) => (s.outside_value(page, off, v) is None <==> v & bits
                != 0),
            None => true,
        },
{
    if let Some(GatedWrite::Masked(bits)) = gated_write(block, off) {
        crate::bits::lemma_masks(v, bits, 0);
    }
}

/// Without its clock the camera starts no stream, whatever is written.
pub proof fn law_gated_camera_starts_nothing(
    s: SocState,
    off: u32,
    v: u32,
    active: bool,
    fresh: bool,
    waiting: Seq<bool>,
    ch: int,
)
    requires
        !s.outside_clocked(OutsideBlock::LcdCam),
        s.outside_value(LCD_CAM_PAGE, off, v) is Some,
    ensures
        !crate::soc::link::late_capture(
            off,
            s.outside_value(LCD_CAM_PAGE, off, v)->0,
            active,
            fresh,
            waiting,
            ch,
        ),
{
    law_gate_holds_back_starts(s, LCD_CAM_PAGE, OutsideBlock::LcdCam, off, v);
}

} // verus!
