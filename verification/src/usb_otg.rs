//! USB-OTG controller (full-speed device and host).
//!
//! Device side: the control block, an EP0 loopback (the firmware stages its own
//! SETUP packets by writing `DFIFO0`), an EP1 echo, and an enumeration frontend
//! through which a host delivers a bus reset, SETUP packets and status stages to
//! the firmware's own device stack and captures its IN payloads.
//!
//! Host side: a simulated full-speed device behind the port. Powering the port
//! connects it, a port reset enables it, and a host channel executes control
//! transfers as soon as it is enabled: SETUP consumes eight staged bytes, IN
//! moves payload into the receive FIFO, OUT consumes staged bytes. SET_ADDRESS
//! takes effect when its status stage completes. Other endpoint types complete
//! at once, empty.

use std::collections::VecDeque;
use vstd::prelude::*;
use crate::bytes::{lane, word_from_le};

verus! {

broadcast use crate::bits::lemma_and_le;

pub const USB_OTG_BASE: u32 = 0x6008_0000;

/// First page of the endpoint FIFO window.
pub const USB_OTG_FIFO_PAGE: u32 = 0x6008_1000;

/// Pages of the endpoint FIFO window.
pub const USB_OTG_FIFO_PAGES: u32 = 6;

/// Interrupt matrix source.
pub const USB_OTG_INTR_SOURCE: u32 = 38;

pub const GUSBCFG: u32 = 0x00C;

pub const GRSTCTL: u32 = 0x010;

pub const GINTSTS: u32 = 0x014;

pub const GINTMSK: u32 = 0x018;

pub const GRXSTSP: u32 = 0x020;

pub const GNPTXSTS: u32 = 0x02C;

/// User ID, core ID and hardware configuration words (read-only).
pub const GUID: u32 = 0x03C;

pub const GSNPSID: u32 = 0x040;

pub const GHWCFG1: u32 = 0x044;

pub const GHWCFG2: u32 = 0x048;

pub const GHWCFG3: u32 = 0x04C;

pub const GHWCFG4: u32 = 0x050;

pub const GSNPSID_VAL: u32 = 0x4F54_400A;

pub const GHWCFG2_VAL: u32 = 0x200D_D920;

pub const GHWCFG3_VAL: u32 = 0x0100_00E8;

pub const GHWCFG4_VAL: u32 = 0x1600_0000;

/// Host frame number.
pub const HFNUM: u32 = 0x408;

/// Summary of pending host channel interrupts.
pub const HAINT: u32 = 0x414;

/// Host port.
pub const HPRT: u32 = 0x440;

/// Host channel blocks.
pub const HC_BASE: u32 = 0x500;

pub const HC_STRIDE: u32 = 0x20;

pub const HC_COUNT: usize = 8;

pub const DCFG: u32 = 0x800;

pub const DCTL: u32 = 0x804;

pub const DSTS: u32 = 0x808;

pub const DAINT: u32 = 0x818;

pub const DIEPEMPMSK: u32 = 0x834;

pub const DIEPCTL0: u32 = 0x900;

pub const DIEPINT0: u32 = 0x908;

pub const DIEPTSIZ0: u32 = 0x910;

pub const DTXFSTS0: u32 = 0x914;

/// Per-endpoint transmit space word.
pub const DIEPDMA0: u32 = 0x918;

pub const DOEPCTL0: u32 = 0xB00;

pub const DOEPINT0: u32 = 0xB08;

pub const DOEPTSIZ0: u32 = 0xB10;

/// EP0 FIFO.
pub const DFIFO0: u32 = 0x1000;

pub const GRST_CSFTRST: u32 = 1;

pub const GRST_RXFFLSH: u32 = 1 << 4;

pub const GRST_TXFFLSH: u32 = 1 << 5;

pub const GRST_AHBIDLE: u32 = 1 << 31;

/// Transmit FIFO depth in words.
pub const TXFIFO_WORDS: u32 = 256;

/// Transmit FIFO depth in bytes.
pub const TXFIFO_BYTES: usize = 1024;

/// Words in the register block.
pub const REG_WORDS: usize = 2048;

pub const GUSBCFG_FORCE_HOST: u32 = 1 << 29;

pub const GUSBCFG_FORCE_DEVICE: u32 = 1 << 30;

pub const HPRT_CONNSTS: u32 = 1;

pub const HPRT_CONNDET: u32 = 1 << 1;

pub const HPRT_ENA: u32 = 1 << 2;

pub const HPRT_ENCHNG: u32 = 1 << 3;

pub const HPRT_RST: u32 = 1 << 8;

pub const HPRT_PWR: u32 = 1 << 12;

pub const HPRT_SPD_FS: u32 = 1 << 17;

/// Latched port bits, cleared by writing 1.
pub const HPRT_W1C: u32 = 0xA;

/// Port bits that only port events drive.
pub const HPRT_KEEP: u32 = 0x6_000F;

/// Register offsets in a host channel block.
pub const HCCHAR_OFF: u32 = 0x00;

pub const HCINT_OFF: u32 = 0x08;

pub const HCINTMSK_OFF: u32 = 0x0C;

pub const HCTSIZ_OFF: u32 = 0x10;

pub const HCCHAR_CHENA: u32 = 1 << 31;

pub const HCCHAR_CHDIS: u32 = 1 << 30;

/// Direction bit of `HCCHAR`: set for IN.
pub const HCCHAR_IN: u32 = 1 << 15;

pub const HCINT_XFERCOMPL: u32 = 1;

pub const HCINT_CHHALTED: u32 = 1 << 1;

pub const HCINT_STALL: u32 = 1 << 3;

/// Transfer completed, channel halted.
pub const HCINT_DONE: u32 = 0x3;

/// Transfer stalled, channel halted.
pub const HCINT_STALLED: u32 = 0xA;

pub const GINT_RXFLVL: u32 = 1 << 4;

pub const GINT_USBRST: u32 = 1 << 12;

pub const GINT_ENUMDNE: u32 = 1 << 13;

/// Latched device interrupt bits.
pub const GINT_LATCHED: u32 = 0x3000;

pub const GINT_IEPINT: u32 = 1 << 18;

pub const GINT_OEPINT: u32 = 1 << 19;

pub const GINT_PRTINT: u32 = 1 << 24;

pub const GINT_HCINTR: u32 = 1 << 25;

/// Enumerated speed: full-speed.
pub const DSTS_ENUMSPD_FS: u32 = 6;

pub const DAINT_IN_EP0: u32 = 1;

pub const DAINT_OUT_EP0: u32 = 1 << 16;

pub const GRXSTSP_PKTSTS_SETUP_RX: u32 = 6;

pub const GRXSTSP_PKTSTS_SETUP_DONE: u32 = 4;

/// Packet status of a received IN packet, in place.
pub const GRXSTSP_PKTSTS_IN: u32 = 0xC_0000;

/// Packet status word of a received SETUP packet: 8 bytes, DATA0.
pub const SETUP_RX_WORD: u32 = 0xC_8080;

/// Packet status word of a retired SETUP packet.
pub const SETUP_DONE_WORD: u32 = 0x8_8000;

pub const DOEPINT_SETUP: u32 = 1 << 3;

pub const DOEPINT_STPKTRX: u32 = 1 << 15;

pub const DIEPINT_TXFE: u32 = 1 << 7;

pub const DIEPEMPMSK_EP0: u32 = 1;

pub const DEPCTL_EPENA: u32 = 1 << 31;

/// Transfer size field of `DIEPTSIZ0` and `HCTSIZ`.
pub const XFRSIZ_MASK: u32 = 0x7_FFFF;

/// Transfer size and packet count fields of `DIEPTSIZ0`.
pub const TSIZ_COUNTS: u32 = 0x1FFF_FFFF;

/// Bytes that the EP1 echo queue holds.
pub const EP1_BYTES: usize = 256;

/// Device descriptor of the simulated device.
pub const DEV_DESC: [u8; 18] = [
    18,
    1,
    0x00,
    0x02,
    0x00,
    0x00,
    0x00,
    64,
    0x3A,
    0x30,
    0x01,
    0x10,
    0x00,
    0x01,
    1,
    2,
    3,
    1,
];

/// String descriptors: language, manufacturer, product, serial number.
pub const STR0_DESC: [u8; 4] = [4, 3, 0x09, 0x04];

pub const STR1_DESC: [u8; 20] = [
    0x14,
    0x03,
    0x45,
    0x00,
    0x73,
    0x00,
    0x70,
    0x00,
    0x72,
    0x00,
    0x65,
    0x00,
    0x73,
    0x00,
    0x73,
    0x00,
    0x69,
    0x00,
    0x66,
    0x00,
];

pub const STR2_DESC: [u8; 26] = [
    0x1A,
    0x03,
    0x45,
    0x00,
    0x53,
    0x00,
    0x50,
    0x00,
    0x33,
    0x00,
    0x32,
    0x00,
    0x2D,
    0x00,
    0x53,
    0x00,
    0x33,
    0x00,
    0x2D,
    0x00,
    0x45,
    0x00,
    0x4D,
    0x00,
    0x55,
    0x00,
];

pub const STR3_DESC: [u8; 10] = [0x0A, 0x03, 0x31, 0x00, 0x32, 0x00, 0x33, 0x00, 0x34, 0x00];

/// Configuration descriptor of the simulated device.
pub const CFG_DESC: [u8; 32] = [
    9,
    2,
    32,
    0,
    1,
    1,
    0,
    0x80,
    50,
    9,
    4,
    0,
    0,
    2,
    0xFF,
    0x00,
    0x00,
    0,
    7,
    5,
    0x81,
    0x02,
    64,
    0,
    0,
    7,
    5,
    0x02,
    0x02,
    64,
    0,
    0,
];

/// The simulated device behind the host port.
#[verifier::ext_equal]
pub struct SimState {
    pub present: bool,
    pub addr: u8,
    /// Address of a SET_ADDRESS whose status stage is still to come.
    pub addr_pending: u8,
    pub addr_armed: bool,
    pub configured: u8,
    /// Staged IN payload.
    pub in_data: Seq<u8>,
}

impl SimState {
    pub open spec fn reset() -> Self {
        SimState {
            present: false,
            addr: 0,
            addr_pending: 0,
            addr_armed: false,
            configured: 0,
            in_data: Seq::empty(),
        }
    }

    /// The device after a status stage: a pending SET_ADDRESS takes effect.
    pub open spec fn after_status(self) -> Self {
        if self.addr_armed {
            SimState { addr: self.addr_pending, addr_armed: false, ..self }
        } else {
            self
        }
    }
}

/// The controller.
#[verifier::ext_equal]
pub struct OtgState {
    pub regs: Seq<u32>,
    /// Device EP0 transmit FIFO.
    pub txfifo: Seq<u8>,
    pub dev: SimState,
    /// Host transmit FIFO.
    pub host_txfifo: Seq<u8>,
    /// Receive FIFO.
    pub rx_data: Seq<u8>,
    /// Pending host packet status: channel, byte count, data PID.
    pub rx_meta: Option<(u8, u16, u8)>,
    /// Bytes of the loopback SETUP packet being staged.
    pub dev_setup: Seq<u8>,
    /// The loopback SETUP stage is over.
    pub dev_setup_done: bool,
    /// EP1 echo queue.
    pub dev_ep1_out: Seq<u8>,
    /// Transmit queues of EP1 to EP7.
    pub ep_tx: Seq<Seq<u8>>,
    /// Latched bus reset and enumeration-done bits.
    pub dev_gint: u32,
    /// An enumeration session owns `DFIFO0`.
    pub dev_enum_session: bool,
    /// An EP0 IN transfer is armed.
    pub dev_in_armed: bool,
    /// Pending device packet status words.
    pub dev_grxstsp: Seq<u32>,
    /// Retiring the SETUP packet is to raise the SETUP flag.
    pub setup_done_armed: bool,
    /// IN bytes for the host to take.
    pub dev_in_capture: Seq<u8>,
    /// The last IN payload, for `DFIFO0` reads.
    pub dev_in_mirror: Seq<u8>,
    /// Frame counter.
    pub sof: u16,
}

/// Byte `i` of a string, 0 past its end.
pub open spec fn byte_or_zero(bytes: Seq<u8>, i: int) -> u8 {
    if 0 <= i < bytes.len() {
        bytes[i]
    } else {
        0
    }
}

/// The first `n` bytes of a string, or all of it.
pub open spec fn first(bytes: Seq<u8>, n: int) -> Seq<u8> {
    if n < bytes.len() {
        bytes.take(n)
    } else {
        bytes
    }
}

/// A string without its first `n` bytes.
pub open spec fn rest(bytes: Seq<u8>, n: int) -> Seq<u8> {
    if n < bytes.len() {
        bytes.skip(n)
    } else {
        Seq::empty()
    }
}

/// The four bytes of a word, least significant first.
pub open spec fn word_bytes(w: u32) -> Seq<u8> {
    seq![crate::bytes::byte_lane(w, 0), crate::bytes::byte_lane(w, 1), crate::bytes::byte_lane(w, 2), crate::bytes::byte_lane(w, 3)]
}

/// A string with a word appended, if it then still fits in `cap` bytes.
pub open spec fn with_word_capped(bytes: Seq<u8>, w: u32, cap: int) -> Seq<u8> {
    if bytes.len() + 4 <= cap {
        bytes + word_bytes(w)
    } else {
        bytes
    }
}

/// Descriptor that GET_DESCRIPTOR type `kind`, index `index` asks for.
pub open spec fn descriptor(kind: u8, index: u8) -> Seq<u8> {
    match kind {
        1 => DEV_DESC@,
        2 => CFG_DESC@,
        3 => match index {
            0 => STR0_DESC@,
            1 => STR1_DESC@,
            2 => STR2_DESC@,
            3 => STR3_DESC@,
            _ => Seq::empty(),
        },
        _ => Seq::empty(),
    }
}

/// The request of a SETUP packet is one that the device serves.
pub open spec fn setup_served(pkt: Seq<u8>) -> bool {
    (pkt[0] == 0x80 && pkt[1] == 6) || (pkt[0] == 0x00 && pkt[1] == 5) || (pkt[0] == 0x00 && pkt[1]
        == 9)
}

impl SimState {
    /// The device after a SETUP packet: GET_DESCRIPTOR stages the descriptor cut
    /// to the requested length, SET_ADDRESS is armed, SET_CONFIGURATION is
    /// recorded, and anything else drops the staged payload.
    pub open spec fn after_setup(self, pkt: Seq<u8>) -> Self {
        if pkt[0] == 0x80 && pkt[1] == 6 {
            SimState {
                in_data: first(descriptor(pkt[3], pkt[2]), pkt[6] + 256 * pkt[7]),
                ..self
            }
        } else if pkt[0] == 0x00 && pkt[1] == 5 {
            SimState { addr_pending: pkt[2] & 0x7F, addr_armed: true, ..self }
        } else if pkt[0] == 0x00 && pkt[1] == 9 {
            SimState { configured: pkt[2], ..self }
        } else {
            SimState { in_data: Seq::empty(), ..self }
        }
    }
}

impl OtgState {
    pub open spec fn wf(self) -> bool {
        self.regs.len() == REG_WORDS && self.ep_tx.len() == 7
    }

    /// State after a core reset with the frame counter at `sof`.
    pub open spec fn reset(sof: u16) -> Self {
        OtgState {
            regs: Seq::new(REG_WORDS as nat, |i: int| 0u32).update(
                (GRSTCTL / 4) as int,
                GRST_AHBIDLE,
            ),
            txfifo: Seq::empty(),
            dev: SimState::reset(),
            host_txfifo: Seq::empty(),
            rx_data: Seq::empty(),
            rx_meta: None,
            dev_setup: Seq::empty(),
            dev_setup_done: false,
            dev_ep1_out: Seq::empty(),
            ep_tx: Seq::new(7, |i: int| Seq::empty()),
            dev_gint: 0,
            dev_enum_session: false,
            dev_in_armed: false,
            dev_grxstsp: Seq::empty(),
            setup_done_armed: false,
            dev_in_capture: Seq::empty(),
            dev_in_mirror: Seq::empty(),
            sof,
        }
    }

    pub open spec fn reg(self, off: u32) -> u32 {
        self.regs[(off / 4) as int]
    }

    pub open spec fn with_reg(self, off: u32, v: u32) -> Self {
        OtgState { regs: self.regs.update((off / 4) as int, v), ..self }
    }

    /// Latch bits of a flag register.
    pub open spec fn latching(self, off: u32, bits: u32) -> Self {
        self.with_reg(off, self.reg(off) | bits)
    }

    /// Free words of the transmit FIFO, shared by both stagings.
    pub open spec fn tx_space(self) -> u32 {
        let words = (self.txfifo.len() + self.host_txfifo.len() + 3) / 4;
        if words < TXFIFO_WORDS {
            (TXFIFO_WORDS - words) as u32
        } else {
            0
        }
    }

    pub open spec fn host_mode(self) -> bool {
        self.reg(GUSBCFG) & GUSBCFG_FORCE_HOST != 0
    }

    pub open spec fn device_mode(self) -> bool {
        self.reg(GUSBCFG) & GUSBCFG_FORCE_DEVICE != 0
    }

    /// Host channel `ch` has an enabled interrupt latched.
    pub open spec fn hc_pending(self, ch: int) -> bool {
        self.regs[(HC_BASE + ch * HC_STRIDE + HCINT_OFF) / 4] & self.regs[(HC_BASE + ch * HC_STRIDE
            + HCINTMSK_OFF) / 4] != 0
    }

    pub open spec fn any_hc_pending(self) -> bool {
        exists|ch: int| 0 <= ch < HC_COUNT && #[trigger] self.hc_pending(ch)
    }

    /// A received packet's status waits in `GRXSTSP`.
    pub open spec fn rx_waiting(self) -> bool {
        self.rx_meta is Some || self.dev_grxstsp.len() > 0
    }

    /// Interrupt status: the latched bus events, and live bits for a waiting
    /// packet status, a port change, a pending channel and EP0 flags.
    pub open spec fn gintsts(self) -> u32 {
        let v0 = self.dev_gint & GINT_LATCHED;
        let v1 = if self.rx_waiting() {
            v0 | GINT_RXFLVL
        } else {
            v0
        };
        let v2 = if self.reg(HPRT) & HPRT_W1C != 0 {
            v1 | GINT_PRTINT
        } else {
            v1
        };
        let v3 = if self.any_hc_pending() {
            v2 | GINT_HCINTR
        } else {
            v2
        };
        let v4 = if self.reg(DOEPINT0) != 0 {
            v3 | GINT_OEPINT
        } else {
            v3
        };
        if self.reg(DIEPINT0) != 0 {
            v4 | GINT_IEPINT
        } else {
            v4
        }
    }

    pub open spec fn int_pending(self) -> bool {
        self.gintsts() & self.reg(GINTMSK) != 0
    }

    /// Bits `0..n` of the host channel summary.
    pub open spec fn haint(self, n: nat) -> u32
        decreases n,
    {
        if n == 0 {
            0
        } else if self.hc_pending(n - 1) {
            self.haint((n - 1) as nat) | (1u32 << ((n - 1) as u32))
        } else {
            self.haint((n - 1) as nat)
        }
    }

    pub open spec fn daint(self) -> u32 {
        (if self.reg(DIEPINT0) != 0 { DAINT_IN_EP0 } else { 0 }) | (if self.reg(DOEPINT0) != 0 {
            DAINT_OUT_EP0
        } else {
            0
        })
    }

    /// EP0 IN flags: the latches, and the live FIFO-empty bit while an armed
    /// transfer may be fed.
    pub open spec fn diepint0(self) -> u32 {
        if self.dev_in_armed && self.reg(DIEPEMPMSK) & DIEPEMPMSK_EP0 != 0 {
            self.reg(DIEPINT0) | DIEPINT_TXFE
        } else {
            self.reg(DIEPINT0)
        }
    }

    /// Word that the next `GRXSTSP` read pops: the host packet status first,
    /// then device entries, else 0.
    pub open spec fn grxstsp(self) -> u32 {
        match self.rx_meta {
            Some((ch, bcnt, dpid)) => (ch as u32) | ((bcnt as u32) << 4) | ((dpid as u32) << 15)
                | GRXSTSP_PKTSTS_IN,
            None => if self.dev_grxstsp.len() > 0 {
                self.dev_grxstsp[0]
            } else {
                0
            },
        }
    }

    /// The controller after a `GRXSTSP` read. Retiring a SETUP packet raises the
    /// EP0 SETUP flag, once.
    pub open spec fn after_grxstsp(self) -> Self {
        if self.rx_meta is Some {
            OtgState { rx_meta: None, ..self }
        } else {
            let w = self.grxstsp();
            let popped = OtgState {
                dev_grxstsp: if self.dev_grxstsp.len() > 0 {
                    self.dev_grxstsp.skip(1)
                } else {
                    self.dev_grxstsp
                },
                ..self
            };
            if (w >> 17) & 0xF == GRXSTSP_PKTSTS_SETUP_DONE && self.setup_done_armed {
                (OtgState { setup_done_armed: false, ..popped }).latching(DOEPINT0, DOEPINT_SETUP)
            } else {
                popped
            }
        }
    }

    /// Next byte of a `DFIFO0` read: the receive FIFO; in device mode then the
    /// mirror of the last IN payload, then the EP1 echo; 0 when all are empty.
    pub open spec fn dfifo_byte(self) -> u8 {
        if self.rx_data.len() > 0 {
            self.rx_data[0]
        } else if self.host_mode() {
            0
        } else if self.dev_in_mirror.len() > 0 {
            self.dev_in_mirror[0]
        } else if self.dev_ep1_out.len() > 0 {
            self.dev_ep1_out[0]
        } else {
            0
        }
    }

    /// The controller after one byte of a `DFIFO0` read. Device-mode bytes of the
    /// receive FIFO are captured for the host outside an enumeration session.
    pub open spec fn after_dfifo_byte(self) -> Self {
        if self.rx_data.len() > 0 {
            let popped = OtgState { rx_data: self.rx_data.skip(1), ..self };
            if !self.host_mode() && !self.dev_enum_session {
                OtgState { dev_in_capture: self.dev_in_capture.push(self.rx_data[0]), ..popped }
            } else {
                popped
            }
        } else if self.host_mode() {
            self
        } else if self.dev_in_mirror.len() > 0 {
            OtgState { dev_in_mirror: self.dev_in_mirror.skip(1), ..self }
        } else if self.dev_ep1_out.len() > 0 {
            OtgState { dev_ep1_out: self.dev_ep1_out.skip(1), ..self }
        } else {
            self
        }
    }

    pub open spec fn dfifo_word(self) -> u32 {
        let s1 = self.after_dfifo_byte();
        let s2 = s1.after_dfifo_byte();
        let s3 = s2.after_dfifo_byte();
        crate::bytes::le_word(self.dfifo_byte(), s1.dfifo_byte(), s2.dfifo_byte(), s3.dfifo_byte())
    }

    pub open spec fn after_dfifo_word(self) -> Self {
        self.after_dfifo_byte().after_dfifo_byte().after_dfifo_byte().after_dfifo_byte()
    }

    /// Value that a register read returns.
    pub open spec fn read(self, off: u32) -> u32 {
        if off == GUID || off == GHWCFG1 {
            0
        } else if off == GSNPSID {
            GSNPSID_VAL
        } else if off == GHWCFG2 {
            GHWCFG2_VAL
        } else if off == GHWCFG3 {
            GHWCFG3_VAL
        } else if off == GHWCFG4 {
            GHWCFG4_VAL
        } else if off == GINTSTS {
            self.gintsts()
        } else if off == DSTS {
            if self.dev_gint & GINT_ENUMDNE != 0 {
                DSTS_ENUMSPD_FS
            } else {
                0
            }
        } else if off == DAINT {
            self.daint()
        } else if off == DIEPINT0 {
            self.diepint0()
        } else if off == GRXSTSP {
            self.grxstsp()
        } else if off == HAINT {
            self.haint(HC_COUNT as nat)
        } else if off == GNPTXSTS {
            self.tx_space() & 0xFFFF
        } else if off == DTXFSTS0 || off == DIEPDMA0 {
            self.tx_space()
        } else if off == DFIFO0 {
            self.dfifo_word()
        } else if off == HFNUM {
            self.sof as u32
        } else if off < 4 * REG_WORDS && off % 4 == 0 {
            self.reg(off)
        } else {
            0
        }
    }

    /// The controller after a register read: `GRXSTSP` and `DFIFO0` pop.
    pub open spec fn after_read(self, off: u32) -> Self {
        if off == GRXSTSP {
            self.after_grxstsp()
        } else if off == DFIFO0 {
            self.after_dfifo_word()
        } else {
            self
        }
    }

    /// The controller after a write of the host port register: latched bits
    /// clear where written 1, control bits are stored, bits that port events
    /// drive stay. Powering the port connects the device; a port reset resets
    /// and enables it.
    pub open spec fn hprt_written(self, value: u32) -> Self {
        let prev = self.reg(HPRT) & !(value & HPRT_W1C);
        let stored = (prev & HPRT_KEEP) | (value & !HPRT_KEEP & !HPRT_RST);
        let connects = value & HPRT_PWR != 0 && prev & HPRT_PWR == 0 && !self.dev.present;
        let s1 = if connects {
            OtgState {
                dev: SimState { present: true, addr: 0, configured: 0, ..self.dev },
                ..self.with_reg(HPRT, stored | (HPRT_CONNSTS | HPRT_CONNDET | HPRT_SPD_FS))
            }
        } else {
            self.with_reg(HPRT, stored)
        };
        if value & HPRT_RST != 0 {
            OtgState {
                dev: SimState {
                    addr: 0,
                    addr_armed: false,
                    configured: 0,
                    in_data: Seq::empty(),
                    ..s1.dev
                },
                ..s1.with_reg(HPRT, (s1.reg(HPRT) | (HPRT_ENA | HPRT_ENCHNG)) & !HPRT_RST)
            }
        } else {
            s1
        }
    }

    /// Queue received bytes and their packet status.
    pub open spec fn staging_rx(self, ch: int, dpid: u8, data: Seq<u8>) -> Self {
        OtgState {
            rx_data: self.rx_data + data,
            rx_meta: Some(
                (ch as u8, if data.len() < 0x7FF { data.len() as u16 } else { 0x7FF }, dpid),
            ),
            ..self
        }
    }

    /// The controller after host channel `ch` runs its transfer.
    pub open spec fn channel_run(self, ch: int) -> Self {
        let hcchar = self.reg(hc_off(ch, HCCHAR_OFF));
        let hctsiz = self.reg(hc_off(ch, HCTSIZ_OFF));
        let out = hcchar & HCCHAR_IN == 0;
        let xfer = (hctsiz & XFRSIZ_MASK) as int;
        let pid = (hctsiz >> 29) & 3;
        let s0 = self.with_reg(hc_off(ch, HCCHAR_OFF), hcchar & !HCCHAR_CHENA);
        if !self.dev.present || (hcchar >> 22) & 0x7F != self.dev.addr {
            s0.latching(hc_off(ch, HCINT_OFF), HCINT_STALLED)
        } else if (hcchar >> 18) & 3 != 0 {
            (if out {
                s0
            } else {
                s0.staging_rx(ch, pid as u8, Seq::empty())
            }).latching(hc_off(ch, HCINT_OFF), HCINT_DONE)
        } else if pid == 3 {
            let pkt = Seq::new(8, |i: int| byte_or_zero(self.host_txfifo, i));
            (OtgState {
                host_txfifo: rest(self.host_txfifo, 8),
                dev: self.dev.after_setup(pkt),
                ..s0
            }).latching(
                hc_off(ch, HCINT_OFF),
                if setup_served(pkt) {
                    HCINT_DONE
                } else {
                    HCINT_STALLED
                },
            )
        } else if out {
            (OtgState {
                host_txfifo: rest(self.host_txfifo, xfer),
                dev: self.dev.after_status(),
                ..s0
            }).latching(hc_off(ch, HCINT_OFF), HCINT_DONE)
        } else {
            let dev = if xfer == 0 {
                self.dev.after_status()
            } else {
                self.dev
            };
            (OtgState {
                dev: SimState { in_data: rest(self.dev.in_data, xfer), ..dev },
                ..s0
            }).staging_rx(ch, pid as u8, first(self.dev.in_data, xfer)).latching(
                hc_off(ch, HCINT_OFF),
                HCINT_DONE,
            )
        }
    }

    /// The controller after a loopback SETUP packet: the staged payload is what
    /// `DFIFO0` reads serve.
    pub open spec fn loopback_setup(self, pkt: Seq<u8>) -> Self {
        let dev = self.dev.after_setup(pkt);
        let s1 = OtgState { dev, rx_data: dev.in_data, ..self };
        if setup_served(pkt) {
            (OtgState { dev_setup_done: true, ..s1 }).latching(DOEPINT0, UsbOtg::EP_XFRC)
        } else {
            s1.latching(DOEPINT0, UsbOtg::EP_STALL)
        }
    }

    /// The controller after a loopback status stage.
    pub open spec fn loopback_status(self) -> Self {
        if self.host_mode() {
            self
        } else {
            (OtgState { dev: self.dev.after_status(), ..self }).latching(
                DIEPINT0,
                UsbOtg::EP_XFRC,
            )
        }
    }

    /// Programmed size of the EP0 IN transfer.
    pub open spec fn in_size(self) -> int {
        (self.reg(DIEPTSIZ0) & XFRSIZ_MASK) as int
    }

    /// The controller after the EP0 IN completion check: once the FIFO holds the
    /// programmed size, those bytes go to the host (and to the mirror), the FIFO
    /// drops them up to the word boundary, and the size counters drain.
    pub open spec fn in_checked(self) -> Self {
        let n = self.in_size();
        if !self.dev_in_armed || self.txfifo.len() < n {
            self
        } else {
            (OtgState {
                dev_in_mirror: self.txfifo.take(n),
                dev_in_capture: self.dev_in_capture + self.txfifo.take(n),
                txfifo: rest(self.txfifo, (n + 3) / 4 * 4),
                dev_in_armed: false,
                ..self
            }).with_reg(DIEPTSIZ0, self.reg(DIEPTSIZ0) & !TSIZ_COUNTS).latching(
                DIEPINT0,
                UsbOtg::EP_XFRC,
            )
        }
    }

    /// The controller after a write of `DFIFO0`: host payload in host mode; an
    /// IN payload word of an armed transfer in an enumeration session; else part
    /// of a loopback SETUP packet, and once that stage is over EP1 payload.
    pub open spec fn dfifo_written(self, value: u32) -> Self {
        if self.host_mode() {
            OtgState {
                host_txfifo: with_word_capped(self.host_txfifo, value, TXFIFO_BYTES as int),
                ..self
            }
        } else if self.dev_enum_session {
            if self.dev_in_armed {
                (OtgState {
                    txfifo: with_word_capped(self.txfifo, value, TXFIFO_BYTES as int),
                    ..self
                }).in_checked()
            } else {
                self
            }
        } else if !self.dev_setup_done {
            let staged = self.dev_setup + word_bytes(value);
            if staged.len() >= 8 {
                (OtgState { dev_setup: staged.skip(8), ..self }).loopback_setup(staged.take(8))
            } else {
                OtgState { dev_setup: staged, ..self }
            }
        } else {
            OtgState {
                dev_ep1_out: with_word_capped(self.dev_ep1_out, value, EP1_BYTES as int),
                ..self
            }
        }
    }

    /// The controller after a write of a host channel register.
    pub open spec fn channel_written(self, off: u32, value: u32) -> Self {
        let ch = (off - HC_BASE) / (HC_STRIDE as int);
        let reg = (off - HC_BASE) % (HC_STRIDE as int);
        if reg == HCINT_OFF {
            self.with_reg(off, self.reg(off) & !value)
        } else if reg == HCCHAR_OFF && value & HCCHAR_CHENA != 0 {
            if value & HCCHAR_CHDIS != 0 {
                self.with_reg(off, value & !(HCCHAR_CHENA | HCCHAR_CHDIS)).latching(
                    hc_off(ch, HCINT_OFF),
                    HCINT_CHHALTED,
                )
            } else {
                self.with_reg(off, value).channel_run(ch)
            }
        } else {
            self.with_reg(off, value)
        }
    }

    /// Registers that ignore writes.
    pub open spec fn read_only(off: u32) -> bool {
        off == DSTS || off == DAINT || off == GRXSTSP || off == HAINT || off == GUID || off
            == GSNPSID || off == GHWCFG1 || off == GHWCFG2 || off == GHWCFG3 || off == GHWCFG4
    }

    /// The controller after a register write.
    pub open spec fn written(self, off: u32, value: u32) -> Self {
        if off == GRSTCTL {
            if value & GRST_CSFTRST != 0 {
                Self::reset(self.sof)
            } else {
                let stored = self.with_reg(GRSTCTL, value & !(GRST_RXFFLSH | GRST_TXFFLSH));
                if value & GRST_TXFFLSH != 0 {
                    OtgState { txfifo: Seq::empty(), host_txfifo: Seq::empty(), ..stored }
                } else {
                    stored
                }
            }
        } else if off == GINTSTS {
            OtgState { dev_gint: self.dev_gint & !(value & GINT_LATCHED), ..self }
        } else if Self::read_only(off) {
            self
        } else if off == DIEPINT0 {
            self.with_reg(DIEPINT0, self.reg(DIEPINT0) & !(value & !DIEPINT_TXFE))
        } else if off == DOEPINT0 {
            self.with_reg(DOEPINT0, self.reg(DOEPINT0) & !value)
        } else if off == HPRT {
            self.hprt_written(value)
        } else if off == DOEPTSIZ0 || off == DIEPTSIZ0 {
            if self.dev_enum_session {
                self.with_reg(off, value)
            } else {
                self.with_reg(off, value).loopback_status()
            }
        } else if off == DFIFO0 {
            self.dfifo_written(value)
        } else if off >= 4 * REG_WORDS || off % 4 != 0 {
            self
        } else if HC_BASE <= off < HC_BASE + HC_COUNT * HC_STRIDE {
            self.channel_written(off, value)
        } else if off == DIEPCTL0 {
            let stored = self.with_reg(DIEPCTL0, value & !DEPCTL_EPENA);
            if value & DEPCTL_EPENA != 0 {
                (OtgState { dev_in_armed: true, ..stored }).in_checked()
            } else {
                stored
            }
        } else if off == DOEPCTL0 {
            self.with_reg(DOEPCTL0, value & !DEPCTL_EPENA)
        } else {
            self.with_reg(off, value)
        }
    }

    /// The core after the device on the port has gone.
    pub open spec fn disconnected(self) -> Self {
        OtgState {
            dev: SimState { present: false, ..self.dev },
            ..self.with_reg(HPRT, (self.reg(HPRT) & !HPRT_CONNSTS & !HPRT_ENA) | HPRT_ENCHNG)
        }
    }

    /// The controller after the host delivers a bus reset. Only acts in device
    /// mode; in-flight EP0 stages are retired.
    pub open spec fn after_bus_reset(self) -> Self {
        if !self.device_mode() {
            self
        } else {
            OtgState {
                txfifo: Seq::empty(),
                rx_data: Seq::empty(),
                dev_grxstsp: Seq::empty(),
                dev_in_capture: Seq::empty(),
                dev_in_mirror: Seq::empty(),
                dev_in_armed: false,
                dev_setup_done: false,
                dev_enum_session: false,
                setup_done_armed: false,
                dev_gint: self.dev_gint | GINT_LATCHED,
                ..self.with_reg(DOEPINT0, 0).with_reg(DIEPINT0, 0)
            }
        }
    }

    /// The controller after the host delivers a SETUP packet. Only acts in
    /// device mode.
    pub open spec fn after_host_setup(self, pkt: Seq<u8>) -> Self {
        if !self.device_mode() {
            self
        } else {
            (OtgState {
                dev_enum_session: true,
                rx_data: self.rx_data + pkt,
                dev_grxstsp: self.dev_grxstsp.push(SETUP_RX_WORD).push(SETUP_DONE_WORD),
                setup_done_armed: true,
                ..self
            }).with_reg(DOEPINT0, (self.reg(DOEPINT0) | DOEPINT_STPKTRX) & !DOEPINT_SETUP)
        }
    }

    /// The controller after the host completes a status stage.
    pub open spec fn after_host_status(self) -> Self {
        (OtgState {
            dev: self.dev.after_status(),
            dev_enum_session: false,
            ..self
        }).latching(DIEPINT0, UsbOtg::EP_XFRC).latching(DOEPINT0, UsbOtg::EP_XFRC)
    }

    /// Index of the transmit queue of endpoint `ep` (1 and up; 7 and above share
    /// the last queue).
    pub open spec fn queue_of(ep: int) -> int {
        if ep >= 7 {
            6
        } else {
            ep - 1
        }
    }

    /// The controller after a write to the FIFO page of endpoint `ep`.
    pub open spec fn page_written(self, ep: int, off: u32, value: u32) -> Self {
        if ep == 0 {
            self.dfifo_written(value)
        } else if off < 0x1000 {
            let q = Self::queue_of(ep);
            OtgState {
                ep_tx: self.ep_tx.update(
                    q,
                    with_word_capped(self.ep_tx[q], value, TXFIFO_BYTES as int),
                ),
                ..self
            }
        } else {
            self
        }
    }

    /// Word that a read of the FIFO page of endpoint `ep` returns.
    pub open spec fn page_word(self, ep: int) -> u32 {
        if ep == 0 {
            self.dfifo_word()
        } else {
            let q = self.ep_tx[Self::queue_of(ep)];
            crate::bytes::le_word(
                byte_or_zero(q, 0),
                byte_or_zero(q, 1),
                byte_or_zero(q, 2),
                byte_or_zero(q, 3),
            )
        }
    }

    /// The controller after a read of the FIFO page of endpoint `ep`.
    pub open spec fn after_page_read(self, ep: int) -> Self {
        if ep == 0 {
            self.after_dfifo_word()
        } else {
            let q = Self::queue_of(ep);
            OtgState { ep_tx: self.ep_tx.update(q, rest(self.ep_tx[q], 4)), ..self }
        }
    }
}

/// Offset of register `off` of host channel `ch`.
pub open spec fn hc_off(ch: int, off: u32) -> u32 {
    (HC_BASE + ch * HC_STRIDE + off) as u32
}

/// The simulated device behind the host port.
pub struct SimDevice {
    pub present: bool,
    pub addr: u8,
    pub addr_pending: u8,
    pub addr_armed: bool,
    pub configured: u8,
    pub in_data: VecDeque<u8>,
}

impl View for SimDevice {
    type V = SimState;

    open spec fn view(&self) -> SimState {
        SimState {
            present: self.present,
            addr: self.addr,
            addr_pending: self.addr_pending,
            addr_armed: self.addr_armed,
            configured: self.configured,
            in_data: self.in_data@,
        }
    }
}

/// The USB-OTG controller.
pub struct UsbOtg {
    regs: [u32; REG_WORDS],
    txfifo: Vec<u8>,
    pub dev: SimDevice,
    host_txfifo: VecDeque<u8>,
    rx_data: VecDeque<u8>,
    rx_meta: Option<(u8, u16, u8)>,
    dev_setup: Vec<u8>,
    dev_setup_done: bool,
    dev_ep1_out: VecDeque<u8>,
    ep_tx: [VecDeque<u8>; 7],
    dev_gint: u32,
    dev_enum_session: bool,
    dev_in_armed: bool,
    dev_grxstsp: VecDeque<u32>,
    setup_done_armed: bool,
    dev_in_capture: Vec<u8>,
    dev_in_mirror: VecDeque<u8>,
    sof: u16,
}

impl View for UsbOtg {
    type V = OtgState;

    closed spec fn view(&self) -> OtgState {
        OtgState {
            regs: self.regs@,
            txfifo: self.txfifo@,
            dev: self.dev@,
            host_txfifo: self.host_txfifo@,
            rx_data: self.rx_data@,
            rx_meta: self.rx_meta,
            dev_setup: self.dev_setup@,
            dev_setup_done: self.dev_setup_done,
            dev_ep1_out: self.dev_ep1_out@,
            ep_tx: Seq::new(7, |i: int| self.ep_tx@[i]@),
            dev_gint: self.dev_gint,
            dev_enum_session: self.dev_enum_session,
            dev_in_armed: self.dev_in_armed,
            dev_grxstsp: self.dev_grxstsp@,
            setup_done_armed: self.setup_done_armed,
            dev_in_capture: self.dev_in_capture@,
            dev_in_mirror: self.dev_in_mirror@,
            sof: self.sof,
        }
    }
}

/// Queues of EP1 to EP7, empty.
fn empty_queues() -> (q: [VecDeque<u8>; 7])
    ensures
        forall|i: int| 0 <= i < 7 ==> (#[trigger] q@[i])@ == Seq::<u8>::empty(),
{
    [
        VecDeque::new(),
        VecDeque::new(),
        VecDeque::new(),
        VecDeque::new(),
        VecDeque::new(),
        VecDeque::new(),
        VecDeque::new(),
    ]
}

/// Append a word's bytes to a queue, if it then still fits in `cap` bytes.
fn push_word_capped(q: &mut VecDeque<u8>, w: u32, cap: usize)
    requires
        cap >= 4,
    ensures
        final(q)@ == with_word_capped(old(q)@, w, cap as int),
{
    if q.len() <= cap - 4 {
        q.push_back(lane(w, 0));
        q.push_back(lane(w, 1));
        q.push_back(lane(w, 2));
        q.push_back(lane(w, 3));
        assert(q@ =~= old(q)@ + word_bytes(w));
    }
}

/// Append a word's bytes.
fn push_word(v: &mut Vec<u8>, w: u32)
    ensures
        final(v)@ == old(v)@ + word_bytes(w),
{
    v.push(lane(w, 0));
    v.push(lane(w, 1));
    v.push(lane(w, 2));
    v.push(lane(w, 3));
    assert(v@ =~= old(v)@ + word_bytes(w));
}

/// Drop the first `n` bytes of a queue.
fn drop_front(q: &mut VecDeque<u8>, n: usize)
    ensures
        final(q)@ == rest(old(q)@, n as int),
{
    let mut i: usize = 0;
    assert(q@.skip(0) =~= q@);
    while i < n && q.len() > 0
        invariant
            i <= n,
            i <= old(q)@.len(),
            q@ == old(q)@.skip(i as int),
        decreases n - i,
    {
        let _b: Option<u8> = q.pop_front();
        i = i + 1;
        assert(q@ =~= old(q)@.skip(i as int));
    }
    assert(q@ =~= rest(old(q)@, n as int));
}

/// Append a byte string to a queue.
fn push_all(q: &mut VecDeque<u8>, bytes: &[u8])
    ensures
        final(q)@ == old(q)@ + bytes@,
{
    let mut i: usize = 0;
    while i < bytes.len()
        invariant
            i <= bytes@.len(),
            q@ == old(q)@ + bytes@.take(i as int),
        decreases bytes@.len() - i,
    {
        q.push_back(bytes[i]);
        i = i + 1;
        assert(q@ =~= old(q)@ + bytes@.take(i as int));
    }
    assert(q@ =~= old(q)@ + bytes@);
}

/// A queue of the first `n` bytes of a string.
fn queue_of_first(bytes: &[u8], n: usize) -> (q: VecDeque<u8>)
    ensures
        q@ == first(bytes@, n as int),
{
    let mut q: VecDeque<u8> = VecDeque::new();
    let mut i: usize = 0;
    while i < n && i < bytes.len()
        invariant
            i <= n,
            i <= bytes@.len(),
            q@ == bytes@.take(i as int),
        decreases n - i,
    {
        q.push_back(bytes[i]);
        i = i + 1;
        assert(q@ =~= bytes@.take(i as int));
    }
    assert(q@ =~= first(bytes@, n as int));
    q
}

/// The first `n` bytes of the descriptor that GET_DESCRIPTOR asks for.
fn stage_descriptor(kind: u8, index: u8, n: usize) -> (q: VecDeque<u8>)
    ensures
        q@ == first(descriptor(kind, index), n as int),
{
    match kind {
        1 => queue_of_first(DEV_DESC.as_slice(), n),
        2 => queue_of_first(CFG_DESC.as_slice(), n),
        3 => match index {
            0 => queue_of_first(STR0_DESC.as_slice(), n),
            1 => queue_of_first(STR1_DESC.as_slice(), n),
            2 => queue_of_first(STR2_DESC.as_slice(), n),
            3 => queue_of_first(STR3_DESC.as_slice(), n),
            _ => VecDeque::new(),
        },
        _ => VecDeque::new(),
    }
}

impl SimDevice {
    fn reset() -> (d: Self)
        ensures
            d@ == SimState::reset(),
    {
        SimDevice {
            present: false,
            addr: 0,
            addr_pending: 0,
            addr_armed: false,
            configured: 0,
            in_data: VecDeque::new(),
        }
    }

    /// Dispatch one SETUP packet. Returns true if the device serves it, false if
    /// the endpoint stalls.
    fn handle_setup(&mut self, pkt: [u8; 8]) -> (served: bool)
        ensures
            served == setup_served(pkt@),
            final(self)@ == old(self)@.after_setup(pkt@),
    {
        match (pkt[0], pkt[1]) {
            (0x80, 6) => {
                let len: usize = pkt[6] as usize + 256 * (pkt[7] as usize);
                self.in_data = stage_descriptor(pkt[3], pkt[2], len);
                true
            },
            (0x00, 5) => {
                self.addr_pending = pkt[2] & 0x7F;
                self.addr_armed = true;
                true
            },
            (0x00, 9) => {
                self.configured = pkt[2];
                true
            },
            _ => {
                self.in_data.clear();
                assert(self@ =~= old(self)@.after_setup(pkt@));
                false
            },
        }
    }

    /// Complete a status stage: a pending SET_ADDRESS takes effect.
    fn complete_status(&mut self)
        ensures
            final(self)@ == old(self)@.after_status(),
    {
        if self.addr_armed {
            self.addr = self.addr_pending;
            self.addr_armed = false;
        }
    }
}

/// The tables of every value have their sizes.
pub proof fn lemma_sizes(d: UsbOtg)
    ensures
        d@.wf(),
{
}

impl UsbOtg {
    /// EP0 flag: transfer completed.
    pub const EP_XFRC: u32 = 1;

    /// EP0 flag: STALL response.
    pub const EP_STALL: u32 = 1 << 3;

    pub fn new() -> (u: Self)
        ensures
            u@ == OtgState::reset(0),
            u@.wf(),
    {
        let mut u = UsbOtg {
            regs: [0u32; REG_WORDS],
            txfifo: Vec::new(),
            dev: SimDevice::reset(),
            host_txfifo: VecDeque::new(),
            rx_data: VecDeque::new(),
            rx_meta: None,
            dev_setup: Vec::new(),
            dev_setup_done: false,
            dev_ep1_out: VecDeque::new(),
            ep_tx: empty_queues(),
            dev_gint: 0,
            dev_enum_session: false,
            dev_in_armed: false,
            dev_grxstsp: VecDeque::new(),
            setup_done_armed: false,
            dev_in_capture: Vec::new(),
            dev_in_mirror: VecDeque::new(),
            sof: 0,
        };
        u.core_reset();
        u
    }

    /// Core soft reset: restore the power-on state and raise AHB-idle. The frame
    /// counter keeps running.
    fn core_reset(&mut self)
        ensures
            final(self)@ == OtgState::reset(old(self)@.sof),
    {
        self.regs = [0u32; REG_WORDS];
        self.txfifo.clear();
        self.dev = SimDevice::reset();
        self.host_txfifo.clear();
        self.rx_data.clear();
        self.rx_meta = None;
        self.dev_setup.clear();
        self.dev_setup_done = false;
        self.dev_ep1_out.clear();
        self.ep_tx = empty_queues();
        self.dev_gint = 0;
        self.dev_enum_session = false;
        self.dev_in_armed = false;
        self.dev_grxstsp.clear();
        self.setup_done_armed = false;
        self.dev_in_capture.clear();
        self.dev_in_mirror.clear();
        self.regs[(GRSTCTL / 4) as usize] = GRST_AHBIDLE;
        assert(self@ =~= OtgState::reset(old(self)@.sof));
        assert(self@.ep_tx =~= OtgState::reset(old(self)@.sof).ep_tx);
    }

    /// Free words of the transmit FIFO.
    fn tx_space(&self) -> (n: u32)
        ensures
            n == self@.tx_space(),
    {
        let a: usize = self.txfifo.len();
        let b: usize = self.host_txfifo.len();
        if a >= TXFIFO_BYTES || b >= TXFIFO_BYTES {
            return 0;
        }
        let words: u32 = (a as u32 + b as u32 + 3) / 4;
        if words < TXFIFO_WORDS {
            TXFIFO_WORDS - words
        } else {
            0
        }
    }

    /// Force-host mode latched.
    fn host_mode(&self) -> (r: bool)
        ensures
            r == self@.host_mode(),
    {
        self.regs[(GUSBCFG / 4) as usize] & GUSBCFG_FORCE_HOST != 0
    }

    /// Force-device mode latched.
    fn device_mode(&self) -> (r: bool)
        ensures
            r == self@.device_mode(),
    {
        self.regs[(GUSBCFG / 4) as usize] & GUSBCFG_FORCE_DEVICE != 0
    }

    /// Word index of register `off` of host channel `ch`.
    fn hc_at(ch: usize, off: u32) -> (i: usize)
        requires
            ch < HC_COUNT,
            off < HC_STRIDE,
        ensures
            i == hc_off(ch as int, off) / 4,
            i == (HC_BASE + ch * HC_STRIDE + off) / 4,
            i < REG_WORDS,
    {
        ((HC_BASE + ch as u32 * HC_STRIDE + off) / 4) as usize
    }

    /// Host channel `ch` has an enabled interrupt latched.
    fn hc_pending(&self, ch: usize) -> (r: bool)
        requires
            ch < HC_COUNT,
        ensures
            r == self@.hc_pending(ch as int),
    {
        let i: usize = Self::hc_at(ch, HCINT_OFF);
        let m: usize = Self::hc_at(ch, HCINTMSK_OFF);
        self.regs[i] & self.regs[m] != 0
    }

    /// Some host channel has an enabled interrupt latched.
    fn any_hc_pending(&self) -> (r: bool)
        ensures
            r == self@.any_hc_pending(),
    {
        let mut ch: usize = 0;
        while ch < HC_COUNT
            invariant
                ch <= HC_COUNT,
                forall|c: int| 0 <= c < ch ==> !#[trigger] self@.hc_pending(c),
            decreases HC_COUNT - ch,
        {
            if self.hc_pending(ch) {
                return true;
            }
            ch = ch + 1;
        }
        false
    }

    /// Interrupt status.
    fn host_gintsts(&self) -> (v: u32)
        ensures
            v == self@.gintsts(),
    {
        let mut v: u32 = self.dev_gint & GINT_LATCHED;
        if self.rx_meta.is_some() || self.dev_grxstsp.len() > 0 {
            v = v | GINT_RXFLVL;
        }
        if self.regs[(HPRT / 4) as usize] & HPRT_W1C != 0 {
            v = v | GINT_PRTINT;
        }
        if self.any_hc_pending() {
            v = v | GINT_HCINTR;
        }
        if self.regs[(DOEPINT0 / 4) as usize] != 0 {
            v = v | GINT_OEPINT;
        }
        if self.regs[(DIEPINT0 / 4) as usize] != 0 {
            v = v | GINT_IEPINT;
        }
        v
    }

    /// An enabled interrupt is pending (source 38).
    pub fn int_pending(&self) -> (r: bool)
        ensures
            r == self@.int_pending(),
    {
        (self.host_gintsts() & self.regs[(GINTMSK / 4) as usize]) != 0
    }

    /// EP0 IN flags with the live FIFO-empty bit.
    fn dev_diepint0(&self) -> (v: u32)
        ensures
            v == self@.diepint0(),
    {
        let v: u32 = self.regs[(DIEPINT0 / 4) as usize];
        if self.dev_in_armed && self.regs[(DIEPEMPMSK / 4) as usize] & DIEPEMPMSK_EP0 != 0 {
            v | DIEPINT_TXFE
        } else {
            v
        }
    }

    /// Pop the next packet status word.
    fn pop_grxstsp(&mut self) -> (w: u32)
        ensures
            w == old(self)@.grxstsp(),
            final(self)@ == old(self)@.after_grxstsp(),
    {
        if let Some((ch, bcnt, dpid)) = self.rx_meta {
            self.rx_meta = None;
            return (ch as u32) | ((bcnt as u32) << 4) | ((dpid as u32) << 15) | GRXSTSP_PKTSTS_IN;
        }
        let w: u32 = match self.dev_grxstsp.pop_front() {
            Some(w) => w,
            None => 0,
        };
        assert(old(self)@.dev_grxstsp.len() > 0 ==> self.dev_grxstsp@ =~= old(
            self,
        )@.dev_grxstsp.skip(1));
        if (w >> 17) & 0xF == GRXSTSP_PKTSTS_SETUP_DONE && self.setup_done_armed {
            self.setup_done_armed = false;
            self.latch(DOEPINT0, DOEPINT_SETUP);
        }
        assert(self@ =~= old(self)@.after_grxstsp());
        w
    }

    /// Latch bits of a flag register.
    fn latch(&mut self, off: u32, bits: u32)
        requires
            off < 4 * REG_WORDS,
        ensures
            final(self)@ == old(self)@.latching(off, bits),
    {
        let i: usize = (off / 4) as usize;
        self.regs[i] = self.regs[i] | bits;
        assert(self@ =~= old(self)@.latching(off, bits));
    }

    /// Store a register word.
    fn store(&mut self, off: u32, value: u32)
        requires
            off < 4 * REG_WORDS,
        ensures
            final(self)@ == old(self)@.with_reg(off, value),
    {
        self.regs[(off / 4) as usize] = value;
        assert(self@ =~= old(self)@.with_reg(off, value));
    }

    /// Summary of pending host channel interrupts.
    fn haint(&self) -> (v: u32)
        ensures
            v == self@.haint(HC_COUNT as nat),
    {
        let mut v: u32 = 0;
        let mut ch: usize = 0;
        while ch < HC_COUNT
            invariant
                ch <= HC_COUNT,
                v == self@.haint(ch as nat),
            decreases HC_COUNT - ch,
        {
            if self.hc_pending(ch) {
                v = v | (1u32 << (ch as u32));
            }
            ch = ch + 1;
        }
        v
    }

    /// Pop one byte of a `DFIFO0` read.
    fn pop_dfifo_byte(&mut self) -> (b: u8)
        ensures
            b == old(self)@.dfifo_byte(),
            final(self)@ == old(self)@.after_dfifo_byte(),
    {
        let host: bool = self.host_mode();
        if let Some(b) = self.rx_data.pop_front() {
            assert(self.rx_data@ =~= old(self)@.rx_data.skip(1));
            if !host && !self.dev_enum_session {
                self.dev_in_capture.push(b);
            }
            assert(self@ =~= old(self)@.after_dfifo_byte());
            return b;
        }
        if host {
            return 0;
        }
        if let Some(b) = self.dev_in_mirror.pop_front() {
            assert(self.dev_in_mirror@ =~= old(self)@.dev_in_mirror.skip(1));
            assert(self@ =~= old(self)@.after_dfifo_byte());
            return b;
        }
        match self.dev_ep1_out.pop_front() {
            Some(b) => {
                assert(self.dev_ep1_out@ =~= old(self)@.dev_ep1_out.skip(1));
                assert(self@ =~= old(self)@.after_dfifo_byte());
                b
            },
            None => 0,
        }
    }

    /// Pop a word of a `DFIFO0` read.
    fn pop_dfifo(&mut self) -> (w: u32)
        ensures
            w == old(self)@.dfifo_word(),
            final(self)@ == old(self)@.after_dfifo_word(),
    {
        let b0: u8 = self.pop_dfifo_byte();
        let b1: u8 = self.pop_dfifo_byte();
        let b2: u8 = self.pop_dfifo_byte();
        let b3: u8 = self.pop_dfifo_byte();
        word_from_le(b0, b1, b2, b3)
    }

    /// Read a register. `GRXSTSP` and `DFIFO0` reads pop; addresses outside the
    /// block read as 0.
    pub fn read32(&mut self, offset: u32) -> (v: u32)
        ensures
            v == old(self)@.read(offset),
            final(self)@ == old(self)@.after_read(offset),
    {
        match offset {
            GUID => 0,
            GSNPSID => GSNPSID_VAL,
            GHWCFG1 => 0,
            GHWCFG2 => GHWCFG2_VAL,
            GHWCFG3 => GHWCFG3_VAL,
            GHWCFG4 => GHWCFG4_VAL,
            GINTSTS => self.host_gintsts(),
            DSTS => if self.dev_gint & GINT_ENUMDNE != 0 {
                DSTS_ENUMSPD_FS
            } else {
                0
            },
            DAINT => {
                let i: u32 = if self.regs[(DIEPINT0 / 4) as usize] != 0 { DAINT_IN_EP0 } else { 0 };
                let o: u32 = if self.regs[(DOEPINT0 / 4) as usize] != 0 { DAINT_OUT_EP0 } else { 0 };
                i | o
            },
            DIEPINT0 => self.dev_diepint0(),
            GRXSTSP => self.pop_grxstsp(),
            HAINT => self.haint(),
            GNPTXSTS => self.tx_space() & 0xFFFF,
            DTXFSTS0 => self.tx_space(),
            DIEPDMA0 => self.tx_space(),
            DFIFO0 => self.pop_dfifo(),
            HFNUM => self.sof as u32,
            _ => if offset < 4 * REG_WORDS as u32 && offset % 4 == 0 {
                self.regs[(offset / 4) as usize]
            } else {
                0
            },
        }
    }

    /// Write a register. Writes outside the block are ignored.
    pub fn write32(&mut self, offset: u32, value: u32)
        ensures
            final(self)@ == old(self)@.written(offset, value),
    {
        match offset {
            GRSTCTL => self.grstctl_write(value),
            GINTSTS => {
                self.dev_gint = self.dev_gint & !(value & GINT_LATCHED);
            },
            DSTS | DAINT | GRXSTSP | HAINT | GUID | GSNPSID | GHWCFG1 | GHWCFG2 | GHWCFG3
            | GHWCFG4 => {},
            DIEPINT0 => {
                let v: u32 = self.regs[(DIEPINT0 / 4) as usize];
                self.store(DIEPINT0, v & !(value & !DIEPINT_TXFE));
            },
            DOEPINT0 => {
                let v: u32 = self.regs[(DOEPINT0 / 4) as usize];
                self.store(DOEPINT0, v & !value);
            },
            HPRT => self.hprt_write(value),
            DOEPTSIZ0 | DIEPTSIZ0 => {
                self.store(offset, value);
                if !self.dev_enum_session {
                    self.dev_loopback_status();
                }
            },
            DFIFO0 => self.dfifo_write(value),
            _ => if offset < 4 * REG_WORDS as u32 && offset % 4 == 0 {
                if HC_BASE <= offset && offset < HC_BASE + HC_COUNT as u32 * HC_STRIDE {
                    self.channel_write(offset, value);
                } else if offset == DIEPCTL0 {
                    self.store(DIEPCTL0, value & !DEPCTL_EPENA);
                    if value & DEPCTL_EPENA != 0 {
                        self.dev_in_armed = true;
                        self.dev_in_maybe_complete();
                    }
                } else if offset == DOEPCTL0 {
                    self.store(DOEPCTL0, value & !DEPCTL_EPENA);
                } else {
                    self.store(offset, value);
                }
            },
        }
    }

    /// Write the reset register: FIFO flushes and the core reset clear
    /// themselves.
    fn grstctl_write(&mut self, value: u32)
        ensures
            final(self)@ == old(self)@.written(GRSTCTL, value),
    {
        if value & GRST_TXFFLSH != 0 {
            self.txfifo.clear();
            self.host_txfifo.clear();
        }
        if value & GRST_CSFTRST != 0 {
            self.core_reset();
        } else {
            self.store(GRSTCTL, value & !(GRST_RXFFLSH | GRST_TXFFLSH));
        }
        assert(self@ =~= old(self)@.written(GRSTCTL, value));
    }

    /// Write `DFIFO0`.
    fn dfifo_write(&mut self, value: u32)
        ensures
            final(self)@ == old(self)@.dfifo_written(value),
    {
        if self.host_mode() {
            push_word_capped(&mut self.host_txfifo, value, TXFIFO_BYTES);
            assert(self@ =~= old(self)@.dfifo_written(value));
        } else if self.dev_enum_session {
            if self.dev_in_armed {
                if self.txfifo.len() <= TXFIFO_BYTES - 4 {
                    push_word(&mut self.txfifo, value);
                }
                assert(self@ =~= (OtgState {
                    txfifo: with_word_capped(old(self)@.txfifo, value, TXFIFO_BYTES as int),
                    ..old(self)@
                }));
                self.dev_in_maybe_complete();
            }
        } else if !self.dev_setup_done {
            push_word(&mut self.dev_setup, value);
            let ghost staged = self.dev_setup@;
            if self.dev_setup.len() >= 8 {
                let pkt: [u8; 8] = [
                    self.dev_setup[0],
                    self.dev_setup[1],
                    self.dev_setup[2],
                    self.dev_setup[3],
                    self.dev_setup[4],
                    self.dev_setup[5],
                    self.dev_setup[6],
                    self.dev_setup[7],
                ];
                let left: Vec<u8> = self.dev_setup.split_off(8);
                self.dev_setup = left;
                assert(self.dev_setup@ =~= staged.skip(8));
                assert(pkt@ =~= staged.take(8));
                assert(self@ =~= (OtgState { dev_setup: staged.skip(8), ..old(self)@ }));
                self.dev_loopback_setup(pkt);
            } else {
                assert(self@ =~= old(self)@.dfifo_written(value));
            }
        } else {
            push_word_capped(&mut self.dev_ep1_out, value, EP1_BYTES);
            assert(self@ =~= old(self)@.dfifo_written(value));
        }
    }

    /// Write a register of a host channel.
    fn channel_write(&mut self, offset: u32, value: u32)
        requires
            HC_BASE <= offset < HC_BASE + HC_COUNT * HC_STRIDE,
            offset % 4 == 0,
        ensures
            final(self)@ == old(self)@.channel_written(offset, value),
    {
        let ch: usize = ((offset - HC_BASE) / HC_STRIDE) as usize;
        let reg: u32 = (offset - HC_BASE) % HC_STRIDE;
        if reg == HCINT_OFF {
            let v: u32 = self.regs[(offset / 4) as usize];
            self.store(offset, v & !value);
            return;
        }
        self.store(offset, value);
        if reg == HCCHAR_OFF {
            if value & HCCHAR_CHENA != 0 && value & HCCHAR_CHDIS != 0 {
                self.store(offset, value & !(HCCHAR_CHENA | HCCHAR_CHDIS));
                assert(self@.regs =~= old(self)@.with_reg(
                    offset,
                    value & !(HCCHAR_CHENA | HCCHAR_CHDIS),
                ).regs);
                self.raise_hc(ch, HCINT_CHHALTED);
            } else if value & HCCHAR_CHENA != 0 {
                self.run_host_channel(ch);
            }
        }
    }

    /// Complete the EP0 IN transfer once the FIFO holds its programmed size.
    fn dev_in_maybe_complete(&mut self)
        ensures
            final(self)@ == old(self)@.in_checked(),
    {
        if !self.dev_in_armed {
            return;
        }
        let tsiz: usize = (self.regs[(DIEPTSIZ0 / 4) as usize] & XFRSIZ_MASK) as usize;
        if self.txfifo.len() < tsiz {
            return;
        }
        let ghost all = self.txfifo@;
        let words: usize = (tsiz + 3) / 4 * 4;
        let cut: usize = if words < self.txfifo.len() { words } else { self.txfifo.len() };
        let left: Vec<u8> = self.txfifo.split_off(cut);
        let mut payload: Vec<u8> = Vec::new();
        core::mem::swap(&mut payload, &mut self.txfifo);
        payload.truncate(tsiz);
        assert(payload@ =~= all.take(tsiz as int));
        assert(left@ =~= rest(all, words as int));
        self.dev_in_mirror = queue_of_first(payload.as_slice(), tsiz);
        assert(self.dev_in_mirror@ =~= all.take(tsiz as int));
        self.dev_in_capture.extend_from_slice(payload.as_slice());
        assert(self.dev_in_capture@ =~= old(self)@.dev_in_capture + all.take(tsiz as int));
        self.txfifo = left;
        self.dev_in_armed = false;
        let v: u32 = self.regs[(DIEPTSIZ0 / 4) as usize];
        self.store(DIEPTSIZ0, v & !TSIZ_COUNTS);
        self.latch(DIEPINT0, Self::EP_XFRC);
        assert(self@ =~= old(self)@.in_checked());
    }

    /// Write the host port register.
    fn hprt_write(&mut self, value: u32)
        ensures
            final(self)@ == old(self)@.hprt_written(value),
    {
        let prev: u32 = self.regs[(HPRT / 4) as usize] & !(value & HPRT_W1C);
        let mut v: u32 = (prev & HPRT_KEEP) | (value & !HPRT_KEEP & !HPRT_RST);
        if value & HPRT_PWR != 0 && prev & HPRT_PWR == 0 && !self.dev.present {
            self.dev.present = true;
            self.dev.addr = 0;
            self.dev.configured = 0;
            v = v | (HPRT_CONNSTS | HPRT_CONNDET | HPRT_SPD_FS);
        }
        if value & HPRT_RST != 0 {
            self.dev.addr = 0;
            self.dev.addr_armed = false;
            self.dev.configured = 0;
            self.dev.in_data.clear();
            v = (v | (HPRT_ENA | HPRT_ENCHNG)) & !HPRT_RST;
        }
        self.store(HPRT, v);
        assert(self@ =~= old(self)@.hprt_written(value));
    }

    /// Raise host channel interrupt bits.
    fn raise_hc(&mut self, ch: usize, bits: u32)
        requires
            ch < HC_COUNT,
        ensures
            final(self)@ == old(self)@.latching(hc_off(ch as int, HCINT_OFF), bits),
    {
        let i: usize = Self::hc_at(ch, HCINT_OFF);
        self.regs[i] = self.regs[i] | bits;
        assert(self@ =~= old(self)@.latching(hc_off(ch as int, HCINT_OFF), bits));
    }

    /// Advance the frame counter.
    pub fn tick(&mut self)
        ensures
            final(self)@ == (OtgState { sof: old(self)@.sof.wrapping_add(1), ..old(self)@ }),
    {
        self.sof = self.sof.wrapping_add(1);
    }

    /// Disconnect the simulated device: the port drops its connection and
    /// latches the enable change.
    pub fn host_disconnect(&mut self)
        ensures
            final(self)@ == old(self)@.disconnected(),
    {
        self.dev.present = false;
        let v: u32 = self.regs[(HPRT / 4) as usize];
        self.store(HPRT, (v & !HPRT_CONNSTS & !HPRT_ENA) | HPRT_ENCHNG);
    }

    /// Run the transfer of host channel `ch`.
    fn run_host_channel(&mut self, ch: usize)
        requires
            ch < HC_COUNT,
        ensures
            final(self)@ == old(self)@.channel_run(ch as int),
    {
        let ci: usize = Self::hc_at(ch, HCCHAR_OFF);
        let si: usize = Self::hc_at(ch, HCTSIZ_OFF);
        let hcchar: u32 = self.regs[ci];
        let hctsiz: u32 = self.regs[si];
        let out: bool = hcchar & HCCHAR_IN == 0;
        let xfer: usize = (hctsiz & XFRSIZ_MASK) as usize;
        let pid: u32 = (hctsiz >> 29) & 3;
        self.regs[ci] = hcchar & !HCCHAR_CHENA;
        let ghost s0 = old(self)@.with_reg(hc_off(ch as int, HCCHAR_OFF), hcchar & !HCCHAR_CHENA);
        assert(self@ =~= s0);
        if !self.dev.present || (hcchar >> 22) & 0x7F != self.dev.addr as u32 {
            self.raise_hc(ch, HCINT_STALLED);
            return;
        }
        if (hcchar >> 18) & 3 != 0 {
            if !out {
                let empty: Vec<u8> = Vec::new();
                self.stage_rx(ch, pid as u8, empty.as_slice());
            }
            self.raise_hc(ch, HCINT_DONE);
            return;
        }
        if pid == 3 {
            let pkt: [u8; 8] = self.take_setup();
            let served: bool = self.dev.handle_setup(pkt);
            self.raise_hc(ch, if served { HCINT_DONE } else { HCINT_STALLED });
            return;
        }
        if out {
            drop_front(&mut self.host_txfifo, xfer);
            self.dev.complete_status();
            self.raise_hc(ch, HCINT_DONE);
            return;
        }
        if xfer == 0 {
            self.dev.complete_status();
        }
        let ghost in_data = self.dev.in_data@;
        let mut data: Vec<u8> = Vec::new();
        assert(in_data.skip(0) =~= in_data);
        while data.len() < xfer && self.dev.in_data.len() > 0
            invariant
                data@.len() <= in_data.len(),
                data@.len() <= xfer,
                data@ == in_data.take(data@.len() as int),
                self.dev.in_data@ == in_data.skip(data@.len() as int),
                self@ == (OtgState {
                    dev: SimState {
                        in_data: self.dev.in_data@,
                        ..(if xfer == 0 { s0.dev.after_status() } else { s0.dev })
                    },
                    ..s0
                }),
            decreases xfer - data@.len(),
        {
            if let Some(b) = self.dev.in_data.pop_front() {
                data.push(b);
            }
            assert(data@ =~= in_data.take(data@.len() as int));
            assert(self.dev.in_data@ =~= in_data.skip(data@.len() as int));
        }
        assert(data@ =~= first(in_data, xfer as int));
        assert(self.dev.in_data@ =~= rest(in_data, xfer as int));
        self.stage_rx(ch, pid as u8, data.as_slice());
        self.raise_hc(ch, HCINT_DONE);
    }

    /// Take the eight bytes of a SETUP packet from the host FIFO; missing bytes
    /// are 0.
    fn take_setup(&mut self) -> (pkt: [u8; 8])
        ensures
            pkt@ == Seq::new(8, |i: int| byte_or_zero(old(self)@.host_txfifo, i)),
            final(self)@ == (OtgState {
                host_txfifo: rest(old(self)@.host_txfifo, 8),
                ..old(self)@
            }),
    {
        let ghost q = self.host_txfifo@;
        let mut pkt: [u8; 8] = [0u8; 8];
        let mut i: usize = 0;
        while i < 8
            invariant
                i <= 8,
                q == old(self)@.host_txfifo,
                self.host_txfifo@ == rest(q, i as int),
                forall|k: int| 0 <= k < i ==> pkt@[k] == byte_or_zero(q, k),
                self@ == (OtgState { host_txfifo: self.host_txfifo@, ..old(self)@ }),
            decreases 8 - i,
        {
            pkt[i] = match self.host_txfifo.pop_front() {
                Some(b) => b,
                None => 0,
            };
            i = i + 1;
            assert(self.host_txfifo@ =~= rest(q, i as int));
        }
        assert(pkt@ =~= Seq::new(8, |i: int| byte_or_zero(q, i)));
        pkt
    }

    /// Queue received bytes and their packet status.
    fn stage_rx(&mut self, ch: usize, dpid: u8, data: &[u8])
        requires
            ch < HC_COUNT,
        ensures
            final(self)@ == old(self)@.staging_rx(ch as int, dpid, data@),
    {
        push_all(&mut self.rx_data, data);
        let n: u16 = if data.len() < 0x7FF { data.len() as u16 } else { 0x7FF };
        self.rx_meta = Some((ch as u8, n, dpid));
        assert(self@ =~= old(self)@.staging_rx(ch as int, dpid, data@));
    }

    /// Loopback SETUP stage.
    fn dev_loopback_setup(&mut self, pkt: [u8; 8])
        ensures
            final(self)@ == old(self)@.loopback_setup(pkt@),
    {
        let served: bool = self.dev.handle_setup(pkt);
        self.rx_data.clear();
        let n: usize = self.dev.in_data.len();
        let mut i: usize = 0;
        while i < n
            invariant
                i <= n,
                n == self.dev.in_data@.len(),
                self.rx_data@ == self.dev.in_data@.take(i as int),
                self@ == (OtgState {
                    dev: old(self)@.dev.after_setup(pkt@),
                    rx_data: self.rx_data@,
                    ..old(self)@
                }),
            decreases n - i,
        {
            let b: u8 = self.dev.in_data[i];
            self.rx_data.push_back(b);
            i = i + 1;
            assert(self.rx_data@ =~= self.dev.in_data@.take(i as int));
        }
        assert(self.rx_data@ =~= self.dev.in_data@);
        if served {
            self.latch(DOEPINT0, Self::EP_XFRC);
            self.dev_setup_done = true;
        } else {
            self.latch(DOEPINT0, Self::EP_STALL);
        }
        assert(self@ =~= old(self)@.loopback_setup(pkt@));
    }

    /// Loopback status stage.
    fn dev_loopback_status(&mut self)
        ensures
            final(self)@ == old(self)@.loopback_status(),
    {
        if self.host_mode() {
            return;
        }
        self.dev.complete_status();
        self.latch(DIEPINT0, Self::EP_XFRC);
    }

    /// An enumeration session owns `DFIFO0`.
    pub fn dev_enum_active(&self) -> (r: bool)
        ensures
            r == self@.dev_enum_session,
    {
        self.dev_enum_session
    }

    /// Host frontend: deliver a bus reset and enumeration-done.
    pub fn usb_host_bus_reset(&mut self)
        ensures
            final(self)@ == old(self)@.after_bus_reset(),
    {
        if !self.device_mode() {
            return;
        }
        self.store(DOEPINT0, 0);
        self.store(DIEPINT0, 0);
        self.txfifo.clear();
        self.rx_data.clear();
        self.dev_grxstsp.clear();
        self.dev_in_capture.clear();
        self.dev_in_mirror.clear();
        self.dev_in_armed = false;
        self.dev_setup_done = false;
        self.dev_enum_session = false;
        self.setup_done_armed = false;
        self.dev_gint = self.dev_gint | GINT_LATCHED;
        assert(self@ =~= old(self)@.after_bus_reset());
    }

    /// Host frontend: deliver one SETUP packet.
    pub fn usb_host_setup(&mut self, pkt: [u8; 8])
        ensures
            final(self)@ == old(self)@.after_host_setup(pkt@),
    {
        if !self.device_mode() {
            return;
        }
        self.dev_enum_session = true;
        push_all(&mut self.rx_data, pkt.as_slice());
        self.dev_grxstsp.push_back(SETUP_RX_WORD);
        self.dev_grxstsp.push_back(SETUP_DONE_WORD);
        let v: u32 = self.regs[(DOEPINT0 / 4) as usize];
        self.store(DOEPINT0, (v | DOEPINT_STPKTRX) & !DOEPINT_SETUP);
        self.setup_done_armed = true;
        assert(self@ =~= old(self)@.after_host_setup(pkt@));
    }

    /// Host frontend: complete a status stage.
    pub fn usb_host_status_out(&mut self)
        ensures
            final(self)@ == old(self)@.after_host_status(),
    {
        self.dev.complete_status();
        self.dev_enum_session = false;
        self.latch(DIEPINT0, Self::EP_XFRC);
        self.latch(DOEPINT0, Self::EP_XFRC);
    }

    /// Write the FIFO page of endpoint `ep`.
    pub fn write_dfifo(&mut self, ep: usize, off: u32, value: u32)
        ensures
            final(self)@ == old(self)@.page_written(ep as int, off, value),
    {
        if ep == 0 {
            self.dfifo_write(value);
            return;
        }
        if off < 0x1000 {
            let q: usize = if ep >= 7 { 6 } else { ep - 1 };
            push_word_capped(&mut self.ep_tx[q], value, TXFIFO_BYTES);
            assert(self@.ep_tx =~= old(self)@.page_written(ep as int, off, value).ep_tx);
        }
    }

    /// Read the FIFO page of endpoint `ep`.
    pub fn read_dfifo(&mut self, ep: usize, _off: u32) -> (w: u32)
        ensures
            w == old(self)@.page_word(ep as int),
            final(self)@ == old(self)@.after_page_read(ep as int),
    {
        if ep == 0 {
            return self.pop_dfifo();
        }
        let q: usize = if ep >= 7 { 6 } else { ep - 1 };
        let n: usize = self.ep_tx[q].len();
        let b0: u8 = if n > 0 { self.ep_tx[q][0] } else { 0 };
        let b1: u8 = if n > 1 { self.ep_tx[q][1] } else { 0 };
        let b2: u8 = if n > 2 { self.ep_tx[q][2] } else { 0 };
        let b3: u8 = if n > 3 { self.ep_tx[q][3] } else { 0 };
        drop_front(&mut self.ep_tx[q], 4);
        assert(self@.ep_tx =~= old(self)@.after_page_read(ep as int).ep_tx);
        word_from_le(b0, b1, b2, b3)
    }

    /// Take the IN bytes captured for the host.
    pub fn usb_host_take_in(&mut self) -> (bytes: Vec<u8>)
        ensures
            bytes@ == old(self)@.dev_in_capture,
            final(self)@ == (OtgState { dev_in_capture: Seq::empty(), ..old(self)@ }),
    {
        let mut out: Vec<u8> = Vec::new();
        core::mem::swap(&mut out, &mut self.dev_in_capture);
        assert(self@ =~= (OtgState { dev_in_capture: Seq::empty(), ..old(self)@ }));
        out
    }
}

impl Default for UsbOtg {
    fn default() -> (u: Self)
        ensures
            u@ == OtgState::reset(0),
    {
        Self::new()
    }
}

/// A core reset restores the power-on state from whatever state it is given in:
/// FIFOs empty, no device connected, no interrupt pending, AHB-idle raised. Only
/// the frame counter keeps its value.
pub proof fn law_core_reset_restores_power_on(s: OtgState, v: u32)
    requires
        v & GRST_CSFTRST != 0,
    ensures
        s.written(GRSTCTL, v) == OtgState::reset(s.sof),
        OtgState::reset(s.sof).reg(GRSTCTL) & GRST_CSFTRST == 0,
        OtgState::reset(s.sof).reg(GRSTCTL) & GRST_AHBIDLE != 0,
        OtgState::reset(s.sof).tx_space() == TXFIFO_WORDS,
        !OtgState::reset(s.sof).int_pending(),
{
    let r = OtgState::reset(s.sof);
    crate::bits::lemma_constants();
    assert forall|ch: int| 0 <= ch < HC_COUNT implies !#[trigger] r.hc_pending(ch) by {}
    assert(r.gintsts() == 0);
}

/// SET_ADDRESS takes effect at its status stage and not before.
pub proof fn law_address_applies_at_status(d: SimState, pkt: Seq<u8>)
    requires
        pkt[0] == 0x00,
        pkt[1] == 5,
    ensures
        d.after_setup(pkt).addr == d.addr,
        d.after_setup(pkt).after_status().addr == pkt[2] & 0x7F,
        !d.after_setup(pkt).after_status().addr_armed,
{
}

/// A transfer that carries another address than the device's, or finds no
/// device, stalls and moves no data.
pub proof fn law_wrong_address_stalls(s: OtgState, ch: int)
    requires
        s.wf(),
        0 <= ch < HC_COUNT,
        !s.dev.present || (s.reg(hc_off(ch, HCCHAR_OFF)) >> 22) & 0x7F != s.dev.addr,
    ensures
        s.channel_run(ch).reg(hc_off(ch, HCINT_OFF)) & HCINT_STALLED == HCINT_STALLED,
        s.channel_run(ch).dev == s.dev,
        s.channel_run(ch).rx_data == s.rx_data,
        s.channel_run(ch).host_txfifo == s.host_txfifo,
{
    crate::bits::lemma_or_sets(s.reg(hc_off(ch, HCINT_OFF)), HCINT_STALLED);
}

/// A SETUP packet that asks for a descriptor stages its bytes cut to the
/// requested length; the following IN transfer delivers them in order, cut to
/// its transfer size.
pub proof fn law_descriptor_read(d: SimState, pkt: Seq<u8>, xfer: int)
    requires
        pkt[0] == 0x80,
        pkt[1] == 6,
        0 <= xfer,
    ensures
        setup_served(pkt),
        first(d.after_setup(pkt).in_data, xfer) == first(
            descriptor(pkt[3], pkt[2]),
            if xfer < pkt[6] + 256 * pkt[7] {
                xfer
            } else {
                pkt[6] + 256 * pkt[7]
            },
        ),
{
    let all = descriptor(pkt[3], pkt[2]);
    let n = pkt[6] + 256 * pkt[7];
    assert(first(first(all, n), xfer) =~= first(all, if xfer < n { xfer } else { n }));
}

/// `DFIFO0` reads serve the receive FIFO in order.
pub proof fn law_receive_fifo_order(s: OtgState)
    requires
        s.rx_data.len() >= 4,
    ensures
        s.dfifo_word() == crate::bytes::le_word(s.rx_data[0], s.rx_data[1], s.rx_data[2], s.rx_data[3]),
        s.after_dfifo_word().rx_data == s.rx_data.skip(4),
{
    let s1 = s.after_dfifo_byte();
    let s2 = s1.after_dfifo_byte();
    let s3 = s2.after_dfifo_byte();
    let s4 = s3.after_dfifo_byte();
    assert(s1.rx_data =~= s.rx_data.skip(1));
    assert(s2.rx_data =~= s.rx_data.skip(2));
    assert(s3.rx_data =~= s.rx_data.skip(3));
    assert(s4.rx_data =~= s.rx_data.skip(4));
}

/// Outside host mode and enumeration sessions, every byte served from the
/// receive FIFO is captured for the host, in order.
pub proof fn law_served_bytes_are_captured(s: OtgState)
    requires
        !s.host_mode(),
        !s.dev_enum_session,
        s.rx_data.len() > 0,
    ensures
        s.after_dfifo_byte().dev_in_capture == s.dev_in_capture.push(s.dfifo_byte()),
{
}

/// EP1 echo: a payload word written once the SETUP stage is over is read back
/// when nothing else is queued.
pub proof fn law_ep1_echo(s: OtgState, v: u32)
    requires
        !s.host_mode(),
        !s.dev_enum_session,
        s.dev_setup_done,
        s.rx_data.len() == 0,
        s.dev_in_mirror.len() == 0,
        s.dev_ep1_out.len() == 0,
    ensures
        s.written(DFIFO0, v).read(DFIFO0) == v,
        s.written(DFIFO0, v).after_read(DFIFO0).dev_ep1_out.len() == 0,
{
    let t = s.written(DFIFO0, v);
    crate::bytes::lemma_le_word_of_lanes(v);
    assert(t.dev_ep1_out =~= word_bytes(v));
    let t1 = t.after_dfifo_byte();
    let t2 = t1.after_dfifo_byte();
    let t3 = t2.after_dfifo_byte();
    let t4 = t3.after_dfifo_byte();
    assert(t1.dev_ep1_out =~= word_bytes(v).skip(1));
    assert(t2.dev_ep1_out =~= word_bytes(v).skip(2));
    assert(t3.dev_ep1_out =~= word_bytes(v).skip(3));
    assert(t4.dev_ep1_out =~= Seq::<u8>::empty());
}

/// Each endpoint's FIFO page serves back what was written to it, and the queues
/// of two endpoints below the last are independent.
pub proof fn law_endpoint_pages(s: OtgState, ep: int, other: int, off: u32, v: u32)
    requires
        s.wf(),
        1 <= ep,
        1 <= other < 7,
        other != ep,
        off < 0x1000,
        s.ep_tx[OtgState::queue_of(ep)].len() == 0,
    ensures
        s.page_written(ep, off, v).page_word(ep) == v,
        ep < 7 ==> s.page_written(ep, off, v).page_word(other) == s.page_word(other),
{
    crate::bytes::lemma_le_word_of_lanes(v);
    let q = OtgState::queue_of(ep);
    assert(s.page_written(ep, off, v).ep_tx[q] =~= word_bytes(v));
}

/// An armed IN transfer whose payload is complete goes to the host byte for
/// byte; it disarms, drains the size counters and raises transfer-complete.
pub proof fn law_in_transfer_completes(s: OtgState)
    requires
        s.wf(),
        s.dev_in_armed,
        s.txfifo.len() >= s.in_size(),
    ensures
        s.in_checked().dev_in_capture == s.dev_in_capture + s.txfifo.take(s.in_size()),
        !s.in_checked().dev_in_armed,
        s.in_checked().in_size() == 0,
        s.in_checked().reg(DIEPINT0) & UsbOtg::EP_XFRC == UsbOtg::EP_XFRC,
{
    let tsiz = s.reg(DIEPTSIZ0);
    assert((tsiz & !0x1FFF_FFFFu32) & 0x7_FFFFu32 == 0) by (bit_vector);
    crate::bits::lemma_or_sets(s.reg(DIEPINT0), UsbOtg::EP_XFRC);
}

/// An armed transfer that still lacks payload changes nothing when checked.
pub proof fn law_in_transfer_waits(s: OtgState)
    requires
        s.txfifo.len() < s.in_size(),
    ensures
        s.in_checked() == s,
{
}

/// Flag registers clear exactly the bits that are written 1.
pub proof fn law_flags_write_one_to_clear(s: OtgState, v: u32)
    requires
        s.wf(),
    ensures
        s.written(DOEPINT0, v).reg(DOEPINT0) == s.reg(DOEPINT0) & !v,
        s.written(DIEPINT0, v).reg(DIEPINT0) == s.reg(DIEPINT0) & !(v & !DIEPINT_TXFE),
        s.written(GINTSTS, v).dev_gint == s.dev_gint & !(v & GINT_LATCHED),
{
}

/// A delivered SETUP packet is announced by two packet statuses; popping the
/// second raises the EP0 SETUP flag, exactly once.
pub proof fn law_setup_flag_follows_status(s: OtgState, pkt: Seq<u8>)
    requires
        s.wf(),
        s.device_mode(),
        s.rx_meta is None,
        s.dev_grxstsp.len() == 0,
    ensures
        ({
            let t0 = s.after_host_setup(pkt);
            let t1 = t0.after_grxstsp();
            let t2 = t1.after_grxstsp();
            &&& t0.reg(DOEPINT0) & DOEPINT_SETUP == 0
            &&& t0.grxstsp() == SETUP_RX_WORD
            &&& t1.reg(DOEPINT0) & DOEPINT_SETUP == 0
            &&& t1.grxstsp() == SETUP_DONE_WORD
            &&& t2.reg(DOEPINT0) & DOEPINT_SETUP == DOEPINT_SETUP
            &&& !t2.setup_done_armed
            &&& t2.grxstsp() == 0
        }),
{
    let t0 = s.after_host_setup(pkt);
    let t1 = t0.after_grxstsp();
    let t2 = t1.after_grxstsp();
    let v = s.reg(DOEPINT0) | DOEPINT_STPKTRX;
    assert((v & !(1u32 << 3)) & (1u32 << 3) == 0 && (0xC_8080u32 >> 17) & 0xF == 6 && (0x8_8000u32
        >> 17) & 0xF == 4) by (bit_vector);
    assert(t0.dev_grxstsp =~= seq![SETUP_RX_WORD, SETUP_DONE_WORD]);
    assert(t1.dev_grxstsp =~= seq![SETUP_DONE_WORD]);
    assert(t2.dev_grxstsp =~= Seq::<u32>::empty());
    crate::bits::lemma_or_sets(t1.reg(DOEPINT0), DOEPINT_SETUP);
}

/// Every staging FIFO stays within its depth.
pub open spec fn fifos_bounded(s: OtgState) -> bool {
    &&& s.txfifo.len() <= TXFIFO_BYTES
    &&& s.host_txfifo.len() <= TXFIFO_BYTES
    &&& s.dev_ep1_out.len() <= EP1_BYTES
    &&& s.dev_setup.len() < 8
}

/// No register write overfills a staging FIFO.
pub proof fn law_writes_keep_fifos_bounded(s: OtgState, off: u32, v: u32)
    requires
        s.wf(),
        fifos_bounded(s),
    ensures
        fifos_bounded(s.written(off, v)),
        s.written(off, v).wf(),
{
}

/// Powering the port connects the device and latches the connect event; a
/// disconnect withdraws it.
pub proof fn law_port_power_connects(s: OtgState)
    requires
        s.wf(),
        !s.dev.present,
        s.reg(HPRT) & HPRT_PWR == 0,
    ensures
        s.written(HPRT, HPRT_PWR).dev.present,
        s.written(HPRT, HPRT_PWR).reg(HPRT) & HPRT_CONNSTS == HPRT_CONNSTS,
        s.written(HPRT, HPRT_PWR).reg(HPRT) & HPRT_CONNDET == HPRT_CONNDET,
{
    let r = s.reg(HPRT);
    let stored = (r & HPRT_KEEP) | (HPRT_PWR & !HPRT_KEEP & !HPRT_RST);
    assert((1u32 << 12) & 0xA == 0 && (1u32 << 12) & (1u32 << 12) != 0 && (1u32 << 12) & (1u32 << 8)
        == 0 && r & !0u32 == r && (stored | (1u32 | (1u32 << 1) | (1u32 << 17))) & 1 == 1 && (stored
        | (1u32 | (1u32 << 1) | (1u32 << 17))) & (1u32 << 1) == (1u32 << 1)) by (bit_vector);
}

} // verus!
