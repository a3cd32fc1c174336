//! The chip: memories, peripherals and the bus that joins them.
//!
//! A processor access goes to the memory behind its address or to the
//! peripheral whose register page it names. Peripheral space that no block of
//! this crate answers reads as 0 and ignores writes. Peripheral registers are
//! words: a narrower read gives the addressed lane of the word, a narrower
//! write stores its value as a word.
//!
//! The blocks that live outside this crate (GPIO, LEDC, I2C and the like) are
//! seen through plain values: the pad registers, the levels of the matrix
//! signals they drive, and their interrupt sources.

use crate::block_cache::{BlockCache, BlockState};
use crate::bytes::lane;
use crate::memmap::{
    ASSIST_DEBUG_BASE, BB_BASE, FE2_BASE, FE_BASE, GPIO_BASE, MMU_TABLE_BASE, PERI_BACKUP_BASE,
    RTC_PAGE_BASE, SENS2_BASE, SENSITIVE_BASE, SPI2_BASE, SPI3_BASE, SYSCON_BASE, SYSTEM_BASE,
    SYSTIMER_BASE, TIMG0_BASE, TIMG1_BASE, UART0_BASE, UART1_BASE, UART2_BASE,
    USB_SERIAL_JTAG_BASE, USB_WRAP_BASE, WCL_BASE, WDEV_BASE, WIFI_MAC_BASE, WIFI_MAC_CTRL_BASE,
};
use crate::memory::{ioblock_remap, locate, MemState, Memory, Place};
use crate::pads::{PadState, Pads};
use crate::pll::{PllLock, PllState};
use crate::regstore::RegStore;
use crate::spi::{Spi, SpiState};
use crate::systimer::{Systimer, SystimerState};
use crate::timg::{Timg, TimgState};
use crate::touch::{Touch, TouchState};
use crate::twai::{Twai, TwaiState, TWAI_BASE};
use crate::uart::{Uart, UartState};
use crate::uhci::{Uhci, UhciState, UHCI0_BASE};
use crate::ulp::{Ulp, UlpState, ULP_OFF_END, ULP_OFF_START};
use crate::usb_otg::{
    OtgState, UsbOtg, GRSTCTL, GRST_CSFTRST, HCCHAR_CHDIS, HCCHAR_CHENA, HCCHAR_OFF, HC_BASE,
    HC_COUNT, HC_STRIDE, HPRT, HPRT_PWR, HPRT_RST, USB_OTG_BASE, USB_OTG_FIFO_PAGE,
    USB_OTG_FIFO_PAGES,
};
use crate::usb_serial_jtag::{JtagState, UsbSerialJtag};
use crate::wifi::{Wifi, WifiState};
use crate::wifi_host::{HostState, WifiHost};
use vstd::prelude::*;

pub mod chain;
pub mod dma;
pub mod fixture;
pub mod front;
pub mod heap;
pub mod irq;
pub mod laws;
pub mod link;
pub mod net;
pub mod outside;
pub mod ram;
pub mod rtos;
pub mod sizes;
pub mod stream;
pub mod tick;
pub mod walks;
pub mod wiring;

verus! {

/// An event for the host's virtual devices.
///
/// * `EVT_GPIO`: pad `a` has level `b`.
/// * `EVT_SPI_XFER`: SPI channel `a` has sent `b` bytes.
/// * `EVT_I2C_START`, `EVT_I2C_STOP`: on channel `a`.
/// * `EVT_I2C_WRITE`, `EVT_I2C_READ`: byte `b` on channel `a`.
#[derive(Clone, Copy, Debug, PartialEq, Eq, Structural)]
pub struct EmuEvent {
    pub kind: u8,
    pub a: u32,
    pub b: u32,
}

pub const EVT_GPIO: u8 = 0;

pub const EVT_SPI_XFER: u8 = 1;

pub const EVT_I2C_START: u8 = 2;

pub const EVT_I2C_WRITE: u8 = 3;

pub const EVT_I2C_READ: u8 = 4;

pub const EVT_I2C_STOP: u8 = 5;

/// Clock gates out of reset.
pub const CLK_EN0_RESET: u32 = 0xF9C1_E06F;

pub const CLK_EN1_RESET: u32 = 0x600;

/// What answers a peripheral register.
#[derive(Clone, Copy, PartialEq, Eq, Structural)]
pub enum Device {
    Uart0,
    Uart1,
    Uart2,
    Uhci,
    /// Pad readback word.
    GpioIn,
    Usb,
    Spi2,
    Spi3,
    Twai,
    Touch,
    Ulp,
    Pll,
    /// Transmit DC calibration.
    TxDc,
    /// Calibration status that always reads done.
    CalDone,
    Timg0,
    Timg1,
    Systimer,
    /// Cache page table.
    Mmu,
    /// Radio page with this base address.
    Wifi(u32),
    /// Start address of the second core.
    AppCpu,
    ClkEn0,
    ClkEn1,
    /// Cross-core interrupt.
    FromCpu(u32),
    Syscon,
    PeriBackup,
    Sensitive,
    AssistDebug,
    UsbWrap,
    Wcl,
    Otg,
    /// FIFO page of an endpoint.
    OtgFifo(u32),
    Unmodeled,
}

/// Register page of an address.
pub open spec fn page_of(addr: u32) -> u32 {
    (addr - addr % 0x1000) as u32
}

/// Register offset in the page, a multiple of 4.
pub open spec fn offset_of(addr: u32) -> u32 {
    (addr % 0x1000 - addr % 4) as u32
}

/// The device behind the register at `off` of a page, and the offset that the
/// device sees.
pub open spec fn device(page: u32, off: u32) -> (Device, u32) {
    if page == UART0_BASE {
        (Device::Uart0, off)
    } else if page == UART1_BASE {
        (Device::Uart1, off)
    } else if page == UART2_BASE {
        (Device::Uart2, off)
    } else if page == UHCI0_BASE {
        (Device::Uhci, off)
    } else if page == GPIO_BASE {
        if off == GPIO_IN {
            (Device::GpioIn, off)
        } else {
            (Device::Unmodeled, off)
        }
    } else if page == USB_SERIAL_JTAG_BASE {
        (Device::Usb, off)
    } else if page == SPI2_BASE {
        (Device::Spi2, off)
    } else if page == SPI3_BASE {
        if off < 0x400 {
            (Device::Spi3, off)
        } else {
            (Device::Unmodeled, off)
        }
    } else if page == TWAI_BASE {
        (Device::Twai, off)
    } else if page == RTC_PAGE_BASE {
        if 0x85C <= off < 0x900 {
            (Device::Touch, (off - 0x800) as u32)
        } else if ULP_OFF_START <= off < ULP_OFF_END && off != 0x130 {
            (Device::Ulp, (RTC_PAGE_BASE + off) as u32)
        } else {
            (Device::Unmodeled, off)
        }
    } else if page == SENS2_BASE {
        if off == 0x40 {
            (Device::Pll, off)
        } else if off == 0x4C {
            (Device::TxDc, off)
        } else if off == 0x50 {
            (Device::CalDone, off)
        } else {
            (Device::Unmodeled, off)
        }
    } else if page == TIMG0_BASE {
        (Device::Timg0, off)
    } else if page == TIMG1_BASE {
        (Device::Timg1, off)
    } else if page == SYSTIMER_BASE {
        (Device::Systimer, off)
    } else if page == MMU_TABLE_BASE {
        (Device::Mmu, off)
    } else if page == WDEV_BASE {
        if off == RNG_DATA {
            (Device::Unmodeled, off)
        } else {
            (Device::Wifi(page), off)
        }
    } else if page == SYSTEM_BASE {
        if off == 0x004 {
            (Device::AppCpu, off)
        } else if off == 0x018 {
            (Device::ClkEn0, off)
        } else if off == 0x01C {
            (Device::ClkEn1, off)
        } else if 0x030 <= off <= 0x03C {
            (Device::FromCpu(((off - 0x030) / 4) as u32), off)
        } else {
            (Device::Unmodeled, off)
        }
    } else if page == SYSCON_BASE {
        (Device::Syscon, off)
    } else if page == PERI_BACKUP_BASE {
        (Device::PeriBackup, off)
    } else if page == SENSITIVE_BASE {
        (Device::Sensitive, off)
    } else if page == FE_BASE || page == FE2_BASE || page == BB_BASE || page == WIFI_MAC_BASE || page
        == WIFI_MAC_CTRL_BASE {
        (Device::Wifi(page), off)
    } else if page == ASSIST_DEBUG_BASE {
        (Device::AssistDebug, off)
    } else if page == USB_OTG_BASE {
        (Device::Otg, off)
    } else if USB_OTG_FIFO_PAGE <= page < USB_OTG_FIFO_PAGE + USB_OTG_FIFO_PAGES * 0x1000 {
        (Device::OtgFifo(((page - USB_OTG_FIFO_PAGE) / 0x1000) as u32), off)
    } else if page == USB_WRAP_BASE {
        (Device::UsbWrap, off)
    } else if page == WCL_BASE {
        (Device::Wcl, off)
    } else {
        (Device::Unmodeled, off)
    }
}

/// Pad readback register of the GPIO page.
pub const GPIO_IN: u32 = 0x3C;

/// Random-number register of the radio device page.
pub const RNG_DATA: u32 = 0x7C;

/// Value of the calibration status that always reads done.
pub const CAL_DONE: u32 = 0x0700_0000;

/// Transfer start bit of the SPI command register.
pub const SPI_CMD_USR: u32 = 0x0100_0000;

/// Request bits of the TWAI command register that need the clock.
pub const TWAI_CMD_CLOCKED: u32 = 0x11;

/// USB device clock bit of the second clock-gate word.
pub const CLK_EN1_USB: u32 = 0x400;

/// State of the chip.
#[verifier::ext_equal]
pub struct SocState {
    /// Memories.
    pub mem: MemState,
    /// Pad registers and matrix routing.
    pub pads: PadState,
    /// Levels of the matrix signals driven from outside this crate.
    pub ext_level: Seq<u32>,
    /// Interrupt sources raised from outside this crate.
    pub ext_src: u128,
    pub uart0: UartState,
    pub uart1: UartState,
    pub uart2: UartState,
    pub uhci: UhciState,
    pub usb: JtagState,
    pub otg: OtgState,
    pub spi2: SpiState,
    pub spi3: SpiState,
    pub twai: TwaiState,
    pub touch: TouchState,
    pub ulp: UlpState,
    pub timg0: TimgState,
    pub timg1: TimgState,
    pub systimer: SystimerState,
    pub wifi: WifiState,
    pub pll: PllState,
    /// Transmit DC calibration register as written.
    pub cal4c: u32,
    /// Start address of the second core.
    pub appcpu_ctrl_a: u32,
    /// Peripheral clock gates.
    pub clk_en0: u32,
    pub clk_en1: u32,
    /// Cross-core interrupt requests.
    pub from_cpu: Seq<u32>,
    /// Pages that keep what is written.
    pub syscon: Seq<u32>,
    pub peri_backup: Seq<u32>,
    pub sensitive: Seq<u32>,
    pub assist_debug: Seq<u32>,
    pub usb_wrap: Seq<u32>,
    pub wcl: Seq<u32>,
    /// Dedicated output latches of the two cores.
    pub dedic_out: Seq<u32>,
    /// Interrupt sources as last scanned, and whether that still holds.
    pub cached_src: u128,
    pub src_valid: bool,
    /// Pad readback as last taken, and whether that still holds.
    pub cached_rb: u32,
    pub rb_valid: bool,
    /// Events not yet handed out.
    pub events: Seq<EmuEvent>,
    /// Output mask at the last hand-out.
    pub last_gpio_out: u32,
    /// Bytes of the last SPI transfers.
    pub spi2_tx: Seq<u8>,
    pub spi3_tx: Seq<u8>,
    /// Wake causes and pads found at sleep entry, and the coprocessor causes awaited.
    pub sleep_cause: u32,
    pub sleep_ext1: u32,
    pub sleep_ulp_watch: u32,
    /// Virtual network.
    pub host: HostState,
    /// Lengths of instruction runs.
    pub blocks: BlockState,
}

/// The chip.
pub struct Soc {
    mem: Memory,
    pads: Pads,
    ext_level: [u32; 256],
    ext_src: u128,
    uart0: Uart,
    uart1: Uart,
    uart2: Uart,
    uhci: Uhci,
    usb: UsbSerialJtag,
    otg: UsbOtg,
    spi2: Spi,
    spi3: Spi,
    twai: Twai,
    touch: Touch,
    ulp: Ulp,
    timg0: Timg,
    timg1: Timg,
    systimer: Systimer,
    wifi: Wifi,
    pll: PllLock,
    cal4c: u32,
    appcpu_ctrl_a: u32,
    clk_en0: u32,
    clk_en1: u32,
    from_cpu: [u32; 4],
    syscon: RegStore,
    peri_backup: RegStore,
    sensitive: RegStore,
    assist_debug: RegStore,
    usb_wrap: RegStore,
    wcl: RegStore,
    dedic_out: [u32; 2],
    cached_src: u128,
    src_valid: bool,
    cached_rb: u32,
    rb_valid: bool,
    events: Vec<EmuEvent>,
    last_gpio_out: u32,
    spi2_tx: Vec<u8>,
    spi3_tx: Vec<u8>,
    sleep_cause: u32,
    sleep_ext1: u32,
    sleep_ulp_watch: u32,
    host: WifiHost,
    blocks: BlockCache,
}

impl View for Soc {
    type V = SocState;

    closed spec fn view(&self) -> SocState {
        SocState {
            mem: self.mem@,
            pads: self.pads@,
            ext_level: self.ext_level@,
            ext_src: self.ext_src,
            uart0: self.uart0@,
            uart1: self.uart1@,
            uart2: self.uart2@,
            uhci: self.uhci@,
            usb: self.usb@,
            otg: self.otg@,
            spi2: self.spi2@,
            spi3: self.spi3@,
            twai: self.twai@,
            touch: self.touch@,
            ulp: self.ulp@,
            timg0: self.timg0@,
            timg1: self.timg1@,
            systimer: self.systimer@,
            wifi: self.wifi@,
            pll: self.pll@,
            cal4c: self.cal4c,
            appcpu_ctrl_a: self.appcpu_ctrl_a,
            clk_en0: self.clk_en0,
            clk_en1: self.clk_en1,
            from_cpu: self.from_cpu@,
            syscon: self.syscon@,
            peri_backup: self.peri_backup@,
            sensitive: self.sensitive@,
            assist_debug: self.assist_debug@,
            usb_wrap: self.usb_wrap@,
            wcl: self.wcl@,
            dedic_out: self.dedic_out@,
            cached_src: self.cached_src,
            src_valid: self.src_valid,
            cached_rb: self.cached_rb,
            rb_valid: self.rb_valid,
            events: self.events@,
            last_gpio_out: self.last_gpio_out,
            spi2_tx: self.spi2_tx@,
            spi3_tx: self.spi3_tx@,
            sleep_cause: self.sleep_cause,
            sleep_ext1: self.sleep_ext1,
            sleep_ulp_watch: self.sleep_ulp_watch,
            host: self.host@,
            blocks: self.blocks@,
        }
    }
}

/// A zeroed register page.
pub open spec fn store_page() -> Seq<u32> {
    Seq::new((0x1000usize / 4) as nat, |i: int| 0u32)
}

impl SocState {
    /// Out of reset.
    pub open spec fn reset() -> SocState {
        SocState {
            mem: MemState::reset(),
            pads: PadState::reset(),
            ext_level: Seq::new(256, |i: int| 0u32),
            ext_src: 0,
            uart0: UartState::reset(),
            uart1: UartState::reset(),
            uart2: UartState::reset(),
            uhci: UhciState::reset(),
            usb: JtagState::reset(),
            otg: OtgState::reset(0),
            spi2: SpiState::reset(0),
            spi3: SpiState::reset(1),
            twai: TwaiState::reset(),
            touch: TouchState::reset(),
            ulp: UlpState::reset(),
            timg0: TimgState::reset(),
            timg1: TimgState::reset(),
            systimer: SystimerState::reset(),
            wifi: WifiState::reset(),
            pll: PllState::reset(),
            cal4c: 0,
            appcpu_ctrl_a: 0,
            clk_en0: CLK_EN0_RESET,
            clk_en1: CLK_EN1_RESET,
            from_cpu: Seq::new(4, |i: int| 0u32),
            syscon: store_page(),
            peri_backup: store_page(),
            sensitive: store_page(),
            assist_debug: store_page(),
            usb_wrap: store_page(),
            wcl: store_page(),
            dedic_out: Seq::new(2, |i: int| 0u32),
            cached_src: 0,
            src_valid: false,
            cached_rb: 0,
            rb_valid: false,
            events: Seq::empty(),
            last_gpio_out: 0,
            spi2_tx: Seq::empty(),
            spi3_tx: Seq::empty(),
            sleep_cause: 0,
            sleep_ext1: 0,
            sleep_ulp_watch: 0,
            host: HostState::reset(),
            blocks: BlockState::reset(),
        }
    }

    /// The tables of the clocked blocks have their sizes.
    pub open spec fn sized(self) -> bool {
        &&& self.uart0.wf()
        &&& self.uart1.wf()
        &&& self.uart2.wf()
        &&& self.timg0.wf()
        &&& self.timg1.wf()
        &&& self.systimer.wf()
        &&& self.usb.wf()
        &&& self.otg.wf()
        &&& self.twai.wf()
        &&& self.touch.wf()
    }

    /// What every operation keeps.
    #[verifier::opaque]
    pub open spec fn wf(self) -> bool {
        &&& self.sized()
        &&& self.mem.wf()
        &&& self.pads.wf()
        &&& self.ext_level.len() == 256
        &&& self.from_cpu.len() == 4
        &&& self.dedic_out.len() == 2
        &&& self.spi2.wf()
        &&& self.spi3.wf()
        &&& self.blocks.wf()
        &&& self.ulp.wf()
        &&& self.ext_src & crate::soc::irq::OWN_SOURCES == 0
    }
}

impl Soc {
    pub fn new() -> (s: Self)
        ensures
            s@ == SocState::reset(),
            s@.wf(),
    {
        broadcast use crate::soc::sizes::lemma_sized;

        reveal(SocState::wf);
        assert(0u128 & crate::soc::irq::OWN_SOURCES == 0) by (bit_vector);
        let s = Soc {
            mem: Memory::new(),
            pads: Pads::new(),
            ext_level: [0u32; 256],
            ext_src: 0,
            uart0: Uart::new(),
            uart1: Uart::new(),
            uart2: Uart::new(),
            uhci: Uhci::new(),
            usb: UsbSerialJtag::new(),
            otg: UsbOtg::new(),
            spi2: Spi::new(0),
            spi3: Spi::new(1),
            twai: Twai::new(),
            touch: Touch::new(),
            ulp: Ulp::new(),
            timg0: Timg::new(),
            timg1: Timg::new(),
            systimer: Systimer::new(),
            wifi: Wifi::new(),
            pll: PllLock::new(),
            cal4c: 0,
            appcpu_ctrl_a: 0,
            clk_en0: CLK_EN0_RESET,
            clk_en1: CLK_EN1_RESET,
            from_cpu: [0u32; 4],
            syscon: RegStore::new(0x1000),
            peri_backup: RegStore::new(0x1000),
            sensitive: RegStore::new(0x1000),
            assist_debug: RegStore::new(0x1000),
            usb_wrap: RegStore::new(0x1000),
            wcl: RegStore::new(0x1000),
            dedic_out: [0u32; 2],
            cached_src: 0,
            src_valid: false,
            cached_rb: 0,
            rb_valid: false,
            events: Vec::new(),
            last_gpio_out: 0,
            spi2_tx: Vec::new(),
            spi3_tx: Vec::new(),
            sleep_cause: 0,
            sleep_ext1: 0,
            sleep_ulp_watch: 0,
            host: WifiHost::new(),
            blocks: BlockCache::new(),
        };
        assert(s@ =~= SocState::reset());
        s
    }
}

impl Default for Soc {
    fn default() -> (s: Self)
        ensures
            s@ == SocState::reset(),
            s@.wf(),
    {
        broadcast use crate::soc::sizes::lemma_sized;

        reveal(SocState::wf);
        Soc::new()
    }
}

impl SocState {
    /// Clock gate `bit` of the first or second gate word is open.
    pub open spec fn clk_on(self, en1: bool, bit: u32) -> bool {
        if en1 {
            self.clk_en1 & (1u32 << bit) != 0
        } else {
            self.clk_en0 & (1u32 << bit) != 0
        }
    }

    /// Level of matrix output signal `sig`. UART ready signals, dedicated
    /// outputs and SPI signals come from the blocks here; all others, and the
    /// I2C signals that share their range with SPI, come from outside.
    pub open spec fn signal_level(self, sig: u32) -> u32 {
        if sig == 13 {
            self.uart0.rts_level()
        } else if sig == 16 {
            self.uart1.rts_level()
        } else if sig == 19 {
            self.uart2.rts_level()
        } else if 129 <= sig <= 131 {
            ((self.dedic_out[0] | self.dedic_out[1]) >> ((sig - 129) as u32)) & 1
        } else if 252 <= sig <= 255 {
            ((self.dedic_out[0] | self.dedic_out[1]) >> ((sig - 252 + 3) as u32)) & 1
        } else if sig == 54 {
            ((self.dedic_out[0] | self.dedic_out[1]) >> 7u32) & 1
        } else if outside_signal(sig) {
            self.outside_level(sig)
        } else {
            self.spi2.signal_level(sig) | self.spi3.signal_level(sig) | self.outside_level(sig)
        }
    }

    pub open spec fn outside_level(self, sig: u32) -> u32 {
        if sig < self.ext_level.len() {
            self.ext_level[sig as int]
        } else {
            0
        }
    }

    /// Level driven on pad `i`.
    pub open spec fn pad_driven(self, i: int) -> u32 {
        if self.pads.plain(i) {
            self.pads.out_bit(i)
        } else {
            self.signal_level(self.pads.sel(i))
        }
    }

    /// Readback word after the first `n` pads have been taken into account: a
    /// driven pad reads what is driven on it, any other what is applied to it.
    pub open spec fn readback_upto(self, n: nat) -> u32
        decreases n,
    {
        if n == 0 {
            self.pads.raw_in
        } else {
            let v = self.readback_upto((n - 1) as nat);
            let i = n - 1;
            if !self.pads.enabled(i) {
                v
            } else if self.pad_driven(i) != 0 {
                v | (1u32 << i as u32)
            } else {
                v & !(1u32 << i as u32)
            }
        }
    }

    /// Levels read on pads 0..=31.
    pub open spec fn pad_word(self) -> u32 {
        self.readback_upto(32)
    }

    /// Pad readback. It is taken once and then holds until the next tick or
    /// register write.
    pub open spec fn readback(self) -> u32 {
        if self.rb_valid {
            self.cached_rb
        } else {
            self.pad_word()
        }
    }

    pub open spec fn after_readback(self) -> SocState {
        SocState { cached_rb: self.readback(), rb_valid: true, ..self }
    }

    /// Register read at an address.
    pub open spec fn mmio_read(self, addr: u32) -> u32 {
        let (dev, off) = device(page_of(addr), offset_of(addr));
        match dev {
            Device::Uart0 => self.uart0.read(off),
            Device::Uart1 => self.uart1.read(off),
            Device::Uart2 => self.uart2.read(off),
            Device::Uhci => self.uhci.read(off),
            Device::GpioIn => self.readback(),
            Device::Usb => self.usb.read(off),
            Device::Spi2 => self.spi2.read(off),
            Device::Spi3 => self.spi3.read(off),
            Device::Twai => self.twai.read(off),
            Device::Touch => self.touch.read(off),
            Device::Ulp => self.ulp.read(off),
            Device::Pll => self.pll.read(),
            Device::TxDc => self.wifi.txdc_value(self.cal4c),
            Device::CalDone => CAL_DONE,
            Device::Timg0 => self.timg0.read(off),
            Device::Timg1 => self.timg1.read(off),
            Device::Systimer => self.systimer.read(off),
            Device::Mmu => crate::regstore::stored(self.mem.mmu, off),
            Device::Wifi(page) => self.wifi.read(page, off),
            Device::AppCpu => self.appcpu_ctrl_a,
            Device::ClkEn0 => self.clk_en0,
            Device::ClkEn1 => self.clk_en1,
            Device::FromCpu(i) => self.from_cpu[i as int],
            Device::Syscon => crate::regstore::stored(self.syscon, off),
            Device::PeriBackup => crate::regstore::stored(self.peri_backup, off),
            Device::Sensitive => crate::regstore::stored(self.sensitive, off),
            Device::AssistDebug => crate::regstore::stored(self.assist_debug, off),
            Device::UsbWrap => crate::regstore::stored(self.usb_wrap, off),
            Device::Wcl => crate::regstore::stored(self.wcl, off),
            Device::Otg => self.otg.read(off),
            Device::OtgFifo(ep) => self.otg.page_word(ep as int),
            Device::Unmodeled => 0,
        }
    }

    /// The chip after a register read.
    pub open spec fn after_mmio_read(self, addr: u32) -> SocState {
        let (dev, off) = device(page_of(addr), offset_of(addr));
        match dev {
            Device::Uart0 => SocState { uart0: self.uart0.after_read(off), ..self },
            Device::Uart1 => SocState { uart1: self.uart1.after_read(off), ..self },
            Device::Uart2 => SocState { uart2: self.uart2.after_read(off), ..self },
            Device::GpioIn => self.after_readback(),
            Device::Usb => SocState { usb: self.usb.after_read(off), ..self },
            Device::Twai => SocState { twai: self.twai.after_read(off), ..self },
            Device::Pll => SocState { pll: self.pll.after_read(), ..self },
            Device::TxDc => SocState { wifi: self.wifi.after_txdc_read(), ..self },
            Device::Otg => SocState { otg: self.otg.after_read(off), ..self },
            Device::OtgFifo(ep) => SocState { otg: self.otg.after_page_read(ep as int), ..self },
            _ => self,
        }
    }

    /// Value that reaches an SPI register: without its clock no transfer starts.
    pub open spec fn spi_value(self, bit: u32, off: u32, value: u32) -> u32 {
        if !self.clk_on(false, bit) && off == 0 {
            value & !SPI_CMD_USR
        } else {
            value
        }
    }

    /// Value that reaches a TWAI register: without its clock no request is taken.
    pub open spec fn twai_value(self, off: u32, value: u32) -> u32 {
        if !self.clk_on(false, 19) && off == 4 {
            value & !TWAI_CMD_CLOCKED
        } else {
            value
        }
    }

    /// Value that reaches a USB-OTG register: without its clock there is no core
    /// reset, no port power or reset, and no channel start or stop.
    pub open spec fn otg_value(self, off: u32, value: u32) -> u32 {
        if self.clk_on(false, 23) {
            value
        } else if off == GRSTCTL {
            value & !GRST_CSFTRST
        } else if off == HPRT {
            value & !(HPRT_PWR | HPRT_RST)
        } else if HC_BASE <= off < HC_BASE + HC_COUNT * HC_STRIDE && (off - HC_BASE)
            % HC_STRIDE as int == HCCHAR_OFF {
            value & !(HCCHAR_CHENA | HCCHAR_CHDIS)
        } else {
            value
        }
    }

    /// The SD card on the first SPI bus is selected: its select pad drives low.
    pub open spec fn card_selected(self) -> bool {
        self.pads.enabled(10) && self.pads.out_bit(10) == 0
    }

    /// The chip after a register write.
    pub open spec fn mmio_written(self, addr: u32, value: u32) -> SocState {
        let (dev, off) = device(page_of(addr), offset_of(addr));
        SocState { rb_valid: false, src_valid: false, ..self }.device_written(dev, off, value)
    }

    /// The chip after a device register has been written.
    pub open spec fn device_written(self, dev: Device, off: u32, value: u32) -> SocState {
        let s = self;
        match dev {
            Device::Uart0 => SocState { uart0: s.uart0.written(off, value), ..s },
            Device::Uart1 => SocState { uart1: s.uart1.written(off, value), ..s },
            Device::Uart2 => SocState { uart2: s.uart2.written(off, value), ..s },
            Device::Uhci => SocState { uhci: s.uhci.written(off, value), ..s },
            Device::Usb => SocState { usb: s.usb.written(off, value), ..s },
            Device::Spi2 => SocState {
                spi2: SpiState {
                    sdspi_cs_low: s.card_selected(),
                    ..s.spi2.written(off, s.spi_value(6, off, value))
                },
                ..s
            },
            Device::Spi3 => SocState {
                spi3: s.spi3.written(off, s.spi_value(16, off, value)),
                ..s
            },
            Device::Twai => SocState { twai: s.twai.written(off, s.twai_value(off, value)), ..s },
            Device::Touch => SocState { touch: s.touch.written(off, value), ..s },
            Device::Ulp => SocState { ulp: s.ulp.write(off, value), ..s },
            Device::Pll => SocState { pll: s.pll.written(value), ..s },
            Device::TxDc => SocState {
                cal4c: value,
                wifi: s.wifi.txdc_written(),
                ..s
            },
            Device::Timg0 => SocState { timg0: s.timg0.written(off, value), ..s },
            Device::Timg1 => SocState { timg1: s.timg1.written(off, value), ..s },
            Device::Systimer => SocState { systimer: s.systimer.written(off, value), ..s },
            Device::Mmu => SocState {
                mem: MemState { mmu: crate::regstore::storing(s.mem.mmu, off, value), ..s.mem },
                ..s
            },
            Device::Wifi(page) => SocState { wifi: s.wifi.written(page, off, value), ..s },
            Device::AppCpu => SocState { appcpu_ctrl_a: value, ..s },
            Device::ClkEn0 => SocState { clk_en0: value, ..s },
            Device::ClkEn1 => SocState {
                clk_en1: value,
                usb: JtagState { sys_clk: value & CLK_EN1_USB != 0, ..s.usb },
                ..s
            },
            Device::FromCpu(i) => SocState {
                from_cpu: s.from_cpu.update(i as int, value & 1),
                ..s
            },
            Device::Syscon => SocState {
                syscon: crate::regstore::storing(s.syscon, off, value),
                ..s
            },
            Device::PeriBackup => SocState {
                peri_backup: crate::regstore::storing(s.peri_backup, off, value),
                ..s
            },
            Device::Sensitive => SocState {
                sensitive: crate::regstore::storing(s.sensitive, off, value),
                ..s
            },
            Device::AssistDebug => SocState {
                assist_debug: crate::regstore::storing(s.assist_debug, off, value),
                ..s
            },
            Device::UsbWrap => SocState {
                usb_wrap: crate::regstore::storing(s.usb_wrap, off, value),
                ..s
            },
            Device::Wcl => SocState { wcl: crate::regstore::storing(s.wcl, off, value), ..s },
            Device::Otg => SocState { otg: s.otg.written(off, s.otg_value(off, value)), ..s },
            Device::OtgFifo(ep) => SocState {
                otg: s.otg.page_written(ep as int, off, value),
                ..s
            },
            Device::GpioIn => s,
            Device::CalDone => s,
            Device::Unmodeled => s,
        }
    }
}

/// Signals driven only from outside: LEDC, RMT, sigma-delta, LCD and camera,
/// MCPWM, I2S.
pub open spec fn outside_signal(sig: u32) -> bool {
    73 <= sig <= 84 || 93 <= sig <= 100 || 132 <= sig <= 154 || 160 <= sig <= 171 || 22 <= sig <= 32
}

/// Find the device behind a register.
fn find_device(page: u32, off: u32) -> (r: (Device, u32))
    ensures
        r == device(page, off),
{
    if page == UART0_BASE {
        (Device::Uart0, off)
    } else if page == UART1_BASE {
        (Device::Uart1, off)
    } else if page == UART2_BASE {
        (Device::Uart2, off)
    } else if page == UHCI0_BASE {
        (Device::Uhci, off)
    } else if page == GPIO_BASE {
        if off == GPIO_IN {
            (Device::GpioIn, off)
        } else {
            (Device::Unmodeled, off)
        }
    } else if page == USB_SERIAL_JTAG_BASE {
        (Device::Usb, off)
    } else if page == SPI2_BASE {
        (Device::Spi2, off)
    } else if page == SPI3_BASE {
        if off < 0x400 {
            (Device::Spi3, off)
        } else {
            (Device::Unmodeled, off)
        }
    } else if page == TWAI_BASE {
        (Device::Twai, off)
    } else if page == RTC_PAGE_BASE {
        if 0x85C <= off && off < 0x900 {
            (Device::Touch, off - 0x800)
        } else if ULP_OFF_START <= off && off < ULP_OFF_END && off != 0x130 {
            (Device::Ulp, RTC_PAGE_BASE + off)
        } else {
            (Device::Unmodeled, off)
        }
    } else if page == SENS2_BASE {
        if off == 0x40 {
            (Device::Pll, off)
        } else if off == 0x4C {
            (Device::TxDc, off)
        } else if off == 0x50 {
            (Device::CalDone, off)
        } else {
            (Device::Unmodeled, off)
        }
    } else if page == TIMG0_BASE {
        (Device::Timg0, off)
    } else if page == TIMG1_BASE {
        (Device::Timg1, off)
    } else if page == SYSTIMER_BASE {
        (Device::Systimer, off)
    } else if page == MMU_TABLE_BASE {
        (Device::Mmu, off)
    } else if page == WDEV_BASE {
        if off == RNG_DATA {
            (Device::Unmodeled, off)
        } else {
            (Device::Wifi(page), off)
        }
    } else if page == SYSTEM_BASE {
        if off == 0x004 {
            (Device::AppCpu, off)
        } else if off == 0x018 {
            (Device::ClkEn0, off)
        } else if off == 0x01C {
            (Device::ClkEn1, off)
        } else if 0x030 <= off && off <= 0x03C {
            (Device::FromCpu((off - 0x030) / 4), off)
        } else {
            (Device::Unmodeled, off)
        }
    } else if page == SYSCON_BASE {
        (Device::Syscon, off)
    } else if page == PERI_BACKUP_BASE {
        (Device::PeriBackup, off)
    } else if page == SENSITIVE_BASE {
        (Device::Sensitive, off)
    } else if page == FE_BASE || page == FE2_BASE || page == BB_BASE || page == WIFI_MAC_BASE || page
        == WIFI_MAC_CTRL_BASE {
        (Device::Wifi(page), off)
    } else if page == ASSIST_DEBUG_BASE {
        (Device::AssistDebug, off)
    } else if page == USB_OTG_BASE {
        (Device::Otg, off)
    } else if USB_OTG_FIFO_PAGE <= page && page < USB_OTG_FIFO_PAGE + USB_OTG_FIFO_PAGES * 0x1000 {
        (Device::OtgFifo((page - USB_OTG_FIFO_PAGE) / 0x1000), off)
    } else if page == USB_WRAP_BASE {
        (Device::UsbWrap, off)
    } else if page == WCL_BASE {
        (Device::Wcl, off)
    } else {
        (Device::Unmodeled, off)
    }
}

fn is_outside_signal(sig: u32) -> (r: bool)
    ensures
        r == outside_signal(sig),
{
    (73 <= sig && sig <= 84) || (93 <= sig && sig <= 100) || (132 <= sig && sig <= 154) || (160
        <= sig && sig <= 171) || (22 <= sig && sig <= 32)
}

impl Soc {
    fn clk_on(&self, en1: bool, bit: u32) -> (r: bool)
        requires
            bit < 32,
        ensures
            r == self@.clk_on(en1, bit),
    {
        if en1 {
            self.clk_en1 & (1u32 << bit) != 0
        } else {
            self.clk_en0 & (1u32 << bit) != 0
        }
    }

    fn outside_level(&self, sig: u32) -> (level: u32)
        ensures
            level == self@.outside_level(sig),
    {
        if sig < 256 {
            self.ext_level[sig as usize]
        } else {
            0
        }
    }

    /// Level of a matrix output signal.
    fn signal_level(&self, sig: u32) -> (level: u32)
        requires
            self@.wf(),
        ensures
            level == self@.signal_level(sig),
    {
        broadcast use crate::soc::sizes::lemma_sized;

        reveal(SocState::wf);
        if sig == 13 {
            self.uart0.rts_level()
        } else if sig == 16 {
            self.uart1.rts_level()
        } else if sig == 19 {
            self.uart2.rts_level()
        } else if 129 <= sig && sig <= 131 {
            ((self.dedic_out[0] | self.dedic_out[1]) >> (sig - 129)) & 1
        } else if 252 <= sig && sig <= 255 {
            ((self.dedic_out[0] | self.dedic_out[1]) >> (sig - 252 + 3)) & 1
        } else if sig == 54 {
            ((self.dedic_out[0] | self.dedic_out[1]) >> 7u32) & 1
        } else if is_outside_signal(sig) {
            self.outside_level(sig)
        } else {
            self.spi2.signal_level(sig) | self.spi3.signal_level(sig) | self.outside_level(sig)
        }
    }

    /// Level driven on a pad.
    fn pad_driven(&self, i: usize) -> (level: u32)
        requires
            self@.wf(),
            i < 32,
        ensures
            level == self@.pad_driven(i as int),
    {
        let sel: u32 = self.pads.out_sel(i);
        if sel == crate::pads::SIG_GPIO_OUT || sel == 0 {
            self.pads.out_bit(i)
        } else {
            self.signal_level(sel)
        }
    }

    /// Walk the pads.
    fn pad_word(&self) -> (v: u32)
        requires
            self@.wf(),
        ensures
            v == self@.pad_word(),
    {
        let mut v: u32 = self.pads.raw_in();
        let mut i: u32 = 0;
        while i < 32
            invariant
                self@.wf(),
                i <= 32,
                v == self@.readback_upto(i as nat),
            decreases 32 - i,
        {
            if self.pads.enabled(i as usize) {
                if self.pad_driven(i as usize) != 0 {
                    v = v | (1u32 << i);
                } else {
                    v = v & !(1u32 << i);
                }
            }
            i = i + 1;
        }
        v
    }

    /// Pad readback, cached until the next tick or register write.
    pub fn gpio_in_readback(&mut self) -> (v: u32)
        requires
            old(self)@.wf(),
        ensures
            v == old(self)@.readback(),
            final(self)@ == old(self)@.after_readback(),
            final(self)@.wf(),
    {
        broadcast use crate::soc::sizes::lemma_sized;

        reveal(SocState::wf);
        if !self.rb_valid {
            self.cached_rb = self.pad_word();
            self.rb_valid = true;
        }
        assert(self@ =~= old(self)@.after_readback());
        self.cached_rb
    }

    /// Register read.
    fn mmio_read32(&mut self, addr: u32) -> (v: u32)
        requires
            old(self)@.wf(),
        ensures
            v == old(self)@.mmio_read(addr),
            final(self)@ == old(self)@.after_mmio_read(addr),
            final(self)@.wf(),
    {
        broadcast use crate::soc::sizes::lemma_sized;

        reveal(SocState::wf);
        let page: u32 = addr - addr % 0x1000;
        let at: u32 = addr % 0x1000 - addr % 4;
        let (dev, off) = find_device(page, at);
        let v: u32 = match dev {
            Device::Uart0 => self.uart0.read32(off),
            Device::Uart1 => self.uart1.read32(off),
            Device::Uart2 => self.uart2.read32(off),
            Device::Uhci => self.uhci.read32(off),
            Device::GpioIn => self.gpio_in_readback(),
            Device::Usb => self.usb.read32(off),
            Device::Spi2 => self.spi2.read32(off),
            Device::Spi3 => self.spi3.read32(off),
            Device::Twai => self.twai.read32(off),
            Device::Touch => self.touch.read32(off),
            Device::Ulp => self.ulp.read32(off),
            Device::Pll => self.pll.read32(),
            Device::TxDc => self.wifi.txdc_read(self.cal4c),
            Device::CalDone => CAL_DONE,
            Device::Timg0 => self.timg0.read32(off),
            Device::Timg1 => self.timg1.read32(off),
            Device::Systimer => self.systimer.read32(off),
            Device::Mmu => self.mem.mmu_read32(off),
            Device::Wifi(base) => self.wifi.read32(base, off),
            Device::AppCpu => self.appcpu_ctrl_a,
            Device::ClkEn0 => self.clk_en0,
            Device::ClkEn1 => self.clk_en1,
            Device::FromCpu(i) => self.from_cpu[i as usize],
            Device::Syscon => self.syscon.read32(off),
            Device::PeriBackup => self.peri_backup.read32(off),
            Device::Sensitive => self.sensitive.read32(off),
            Device::AssistDebug => self.assist_debug.read32(off),
            Device::UsbWrap => self.usb_wrap.read32(off),
            Device::Wcl => self.wcl.read32(off),
            Device::Otg => self.otg.read32(off),
            Device::OtgFifo(ep) => self.otg.read_dfifo(ep as usize, off),
            Device::Unmodeled => 0,
        };
        assert(self@ =~= old(self)@.after_mmio_read(addr));
        v
    }

    fn otg_value(&self, off: u32, value: u32) -> (v: u32)
        ensures
            v == self@.otg_value(off, value),
    {
        if self.clk_on(false, 23) {
            value
        } else if off == GRSTCTL {
            value & !GRST_CSFTRST
        } else if off == HPRT {
            value & !(HPRT_PWR | HPRT_RST)
        } else if HC_BASE <= off && off < HC_BASE + HC_COUNT as u32 * HC_STRIDE && (off - HC_BASE)
            % HC_STRIDE == HCCHAR_OFF {
            value & !(HCCHAR_CHENA | HCCHAR_CHDIS)
        } else {
            value
        }
    }

    fn spi_value(&self, bit: u32, off: u32, value: u32) -> (v: u32)
        requires
            bit < 32,
        ensures
            v == self@.spi_value(bit, off, value),
    {
        if !self.clk_on(false, bit) && off == 0 {
            value & !SPI_CMD_USR
        } else {
            value
        }
    }

    /// Register write.
    fn mmio_write32(&mut self, addr: u32, value: u32)
        requires
            old(self)@.wf(),
        ensures
            final(self)@ == old(self)@.mmio_written(addr, value),
            final(self)@.wf(),
    {
        broadcast use crate::soc::sizes::lemma_sized;

        reveal(SocState::wf);
        let page: u32 = addr - addr % 0x1000;
        let at: u32 = addr % 0x1000 - addr % 4;
        let (dev, off) = find_device(page, at);
        self.rb_valid = false;
        self.src_valid = false;
        assert(self@ =~= (SocState { rb_valid: false, src_valid: false, ..old(self)@ }));
        self.write_device(dev, off, value);
    }

    /// Write a device register.
    #[verifier::rlimit(60)]
    fn write_device(&mut self, dev: Device, off: u32, value: u32)
        requires
            old(self)@.wf(),
            dev matches Device::FromCpu(i) ==> i < 4,
        ensures
            final(self)@ == old(self)@.device_written(dev, off, value),
            final(self)@.wf(),
    {
        broadcast use crate::soc::sizes::lemma_sized;

        reveal(SocState::wf);
        match dev {
            Device::Uart0 => self.uart0.write32(off, value),
            Device::Uart1 => self.uart1.write32(off, value),
            Device::Uart2 => self.uart2.write32(off, value),
            Device::Uhci => self.uhci.write32(off, value),
            Device::Usb => self.usb.write32(off, value),
            Device::Spi2 => {
                let v: u32 = self.spi_value(6, off, value);
                self.spi2.write32(off, v);
                let low = self.pads.enabled(10) && self.pads.out_bit(10) == 0;
                self.spi2.set_sdspi_cs(low);
            },
            Device::Spi3 => {
                let v: u32 = self.spi_value(16, off, value);
                self.spi3.write32(off, v);
            },
            Device::Twai => {
                let v: u32 = if !self.clk_on(false, 19) && off == 4 {
                    value & !TWAI_CMD_CLOCKED
                } else {
                    value
                };
                self.twai.write32(off, v);
            },
            Device::Touch => self.touch.write32(off, value),
            Device::Ulp => self.ulp.write32(off, value),
            Device::Pll => self.pll.write32(value),
            Device::TxDc => {
                self.cal4c = value;
                self.wifi.txdc_write(value);
            },
            Device::Timg0 => self.timg0.write32(off, value),
            Device::Timg1 => self.timg1.write32(off, value),
            Device::Systimer => self.systimer.write32(off, value),
            Device::Mmu => self.mem.mmu_write32(off, value),
            Device::Wifi(base) => self.wifi.write32(base, off, value),
            Device::AppCpu => {
                self.appcpu_ctrl_a = value;
            },
            Device::ClkEn0 => {
                self.clk_en0 = value;
            },
            Device::ClkEn1 => {
                self.clk_en1 = value;
                self.usb.set_sys_clk(value & CLK_EN1_USB != 0);
            },
            Device::FromCpu(i) => {
                self.from_cpu[i as usize] = value & 1;
            },
            Device::Syscon => self.syscon.write32(off, value),
            Device::PeriBackup => self.peri_backup.write32(off, value),
            Device::Sensitive => self.sensitive.write32(off, value),
            Device::AssistDebug => self.assist_debug.write32(off, value),
            Device::UsbWrap => self.usb_wrap.write32(off, value),
            Device::Wcl => self.wcl.write32(off, value),
            Device::Otg => {
                let v: u32 = self.otg_value(off, value);
                self.otg.write32(off, v);
            },
            Device::OtgFifo(ep) => self.otg.write_dfifo(ep as usize, off, value),
            Device::GpioIn => {},
            Device::CalDone => {},
            Device::Unmodeled => {},
        }
        assert(self@ =~= old(self)@.device_written(dev, off, value));
    }
}

impl SocState {
    /// Byte that a processor reads.
    #[verifier::opaque]
    pub open spec fn read8(self, addr: u32) -> u32 {
        let a = crate::memory::remapped(addr);
        if crate::memory::place(a) == Place::Apb {
            (self.mmio_read(a) >> ((a % 4 * 8) as u32)) & 0xFF
        } else {
            self.mem.byte(a) as u32
        }
    }

    #[verifier::opaque]
    pub open spec fn after_read8(self, addr: u32) -> SocState {
        let a = crate::memory::remapped(addr);
        if crate::memory::place(a) == Place::Apb {
            self.after_mmio_read(a)
        } else {
            self
        }
    }

    /// Halfword that a processor reads: two byte reads.
    pub open spec fn read16(self, addr: u32) -> u32 {
        self.read8(addr) | (self.after_read8(addr).read8(addr.wrapping_add(1)) << 8)
    }

    pub open spec fn after_read16(self, addr: u32) -> SocState {
        self.after_read8(addr).after_read8(addr.wrapping_add(1))
    }

    /// Word that a processor reads.
    #[verifier::opaque]
    pub open spec fn read32(self, addr: u32) -> u32 {
        let a = crate::memory::remapped(addr);
        if crate::memory::place(a) == Place::Apb {
            self.mmio_read(a)
        } else {
            self.mem.word(a)
        }
    }

    #[verifier::opaque]
    pub open spec fn after_read32(self, addr: u32) -> SocState {
        let a = crate::memory::remapped(addr);
        if crate::memory::place(a) == Place::Apb {
            self.after_mmio_read(a)
        } else {
            self
        }
    }

    /// The chip after a processor writes a byte.
    #[verifier::opaque]
    pub open spec fn write8(self, addr: u32, val: u32) -> SocState {
        let a = crate::memory::remapped(addr);
        if crate::memory::place(a) == Place::Apb {
            self.mmio_written(a, val)
        } else {
            SocState { mem: self.mem.storing8(a, crate::bytes::byte_lane(val, 0)), ..self }
        }
    }

    /// The chip after a processor writes a halfword: two bytes of memory.
    #[verifier::opaque]
    pub open spec fn write16(self, addr: u32, val: u32) -> SocState {
        let a = crate::memory::remapped(addr);
        if crate::memory::place(a) == Place::Apb {
            self.mmio_written(a, val)
        } else {
            SocState {
                mem: self.mem.storing8(a, crate::bytes::byte_lane(val, 0)).storing8(
                    a.wrapping_add(1),
                    crate::bytes::byte_lane(val, 1),
                ),
                ..self
            }
        }
    }

    /// The chip after a processor writes a word.
    #[verifier::opaque]
    pub open spec fn write32(self, addr: u32, val: u32) -> SocState {
        let a = crate::memory::remapped(addr);
        if crate::memory::place(a) == Place::Apb {
            self.mmio_written(a, val)
        } else {
            SocState { mem: self.mem.storing32(a, val), ..self }
        }
    }

    /// An aligned word of internal RAM, on which a compare-and-swap is one
    /// access.
    pub open spec fn swaps_in_ram(addr: u32) -> bool {
        addr % 4 == 0 && match crate::memory::place(addr) {
            Place::Pool(_) => true,
            Place::Sram(_) => true,
            Place::Iram0(_) => true,
            _ => false,
        }
    }

    /// Word that a compare-and-swap finds.
    pub open spec fn cas32(self, addr: u32) -> u32 {
        let a = crate::memory::remapped(addr);
        if SocState::swaps_in_ram(a) {
            self.mem.word(a)
        } else {
            self.read32(a)
        }
    }

    /// The chip after a compare-and-swap: the word is replaced if and only if
    /// it was the one expected.
    pub open spec fn after_cas32(self, addr: u32, compare: u32, val: u32) -> SocState {
        let a = crate::memory::remapped(addr);
        if SocState::swaps_in_ram(a) {
            if self.mem.word(a) == compare {
                SocState { mem: self.mem.with_word(a, val), ..self }
            } else {
                self
            }
        } else {
            let s = self.after_read32(a);
            if self.read32(a) == compare {
                s.write32(a, val)
            } else {
                s
            }
        }
    }
}

impl Soc {
    pub fn read8(&mut self, addr: u32) -> (v: u32)
        requires
            old(self)@.wf(),
        ensures
            v == old(self)@.read8(addr),
            final(self)@ == old(self)@.after_read8(addr),
            final(self)@.wf(),
    {
        broadcast use crate::soc::sizes::lemma_sized;

        reveal(SocState::wf);
        reveal(SocState::read8);
        reveal(SocState::after_read8);
        let a: u32 = ioblock_remap(addr);
        match locate(a) {
            Place::Apb => (self.mmio_read32(a) >> (a % 4 * 8)) & 0xFF,
            _ => self.mem.read8(a) as u32,
        }
    }

    pub fn read16(&mut self, addr: u32) -> (v: u32)
        requires
            old(self)@.wf(),
        ensures
            v == old(self)@.read16(addr),
            final(self)@ == old(self)@.after_read16(addr),
            final(self)@.wf(),
    {
        broadcast use crate::soc::sizes::lemma_sized;

        reveal(SocState::wf);
        let lo: u32 = self.read8(addr);
        let hi: u32 = self.read8(addr.wrapping_add(1));
        lo | (hi << 8)
    }

    pub fn read32(&mut self, addr: u32) -> (v: u32)
        requires
            old(self)@.wf(),
        ensures
            v == old(self)@.read32(addr),
            final(self)@ == old(self)@.after_read32(addr),
            final(self)@.wf(),
    {
        broadcast use crate::soc::sizes::lemma_sized;

        reveal(SocState::wf);
        reveal(SocState::read32);
        reveal(SocState::after_read32);
        let a: u32 = ioblock_remap(addr);
        match locate(a) {
            Place::Apb => self.mmio_read32(a),
            _ => self.mem.read32(a),
        }
    }

    pub fn write8(&mut self, addr: u32, val: u32)
        requires
            old(self)@.wf(),
        ensures
            final(self)@ == old(self)@.write8(addr, val),
            final(self)@.wf(),
    {
        broadcast use crate::soc::sizes::lemma_sized;

        reveal(SocState::wf);
        reveal(SocState::write8);
        let a: u32 = ioblock_remap(addr);
        match locate(a) {
            Place::Apb => self.mmio_write32(a, val),
            _ => {
                proof {
                    crate::memory::law_store_keeps_sizes(
                        self@.mem,
                        a,
                        crate::bytes::byte_lane(val, 0),
                    );
                }
                self.mem.write8(a, lane(val, 0));
            },
        }
    }

    pub fn write16(&mut self, addr: u32, val: u32)
        requires
            old(self)@.wf(),
        ensures
            final(self)@ == old(self)@.write16(addr, val),
            final(self)@.wf(),
    {
        broadcast use crate::soc::sizes::lemma_sized;

        reveal(SocState::wf);
        reveal(SocState::write16);
        let a: u32 = ioblock_remap(addr);
        match locate(a) {
            Place::Apb => self.mmio_write32(a, val),
            _ => {
                proof {
                    let lo = crate::bytes::byte_lane(val, 0);
                    crate::memory::law_store_keeps_sizes(self@.mem, a, lo);
                    crate::memory::law_store_keeps_sizes(
                        self@.mem.storing8(a, lo),
                        a.wrapping_add(1),
                        crate::bytes::byte_lane(val, 1),
                    );
                }
                self.mem.write8(a, lane(val, 0));
                self.mem.write8(a.wrapping_add(1), lane(val, 1));
            },
        }
    }

    pub fn write32(&mut self, addr: u32, val: u32)
        requires
            old(self)@.wf(),
        ensures
            final(self)@ == old(self)@.write32(addr, val),
            final(self)@.wf(),
    {
        broadcast use crate::soc::sizes::lemma_sized;

        reveal(SocState::wf);
        reveal(SocState::write32);
        let a: u32 = ioblock_remap(addr);
        match locate(a) {
            Place::Apb => self.mmio_write32(a, val),
            _ => {
                proof {
                    crate::memory::law_word_store_keeps_sizes(self@.mem, a, val);
                }
                self.mem.write32(a, val);
            },
        }
    }

    /// Compare-and-swap without anything in between.
    pub fn cas32(&mut self, addr: u32, compare: u32, val: u32) -> (found: u32)
        requires
            old(self)@.wf(),
        ensures
            found == old(self)@.cas32(addr),
            final(self)@ == old(self)@.after_cas32(addr, compare, val),
            final(self)@.wf(),
    {
        broadcast use crate::soc::sizes::lemma_sized;

        reveal(SocState::wf);
        let a: u32 = ioblock_remap(addr);
        let in_ram = a % 4 == 0 && match locate(a) {
            Place::Pool(_) => true,
            Place::Sram(_) => true,
            Place::Iram0(_) => true,
            _ => false,
        };
        if in_ram {
            let found: u32 = self.mem.read32(a);
            if found == compare {
                proof {
                    crate::memory::lemma_word_keeps_sizes(self@.mem, a, val);
                }
                self.mem.poke32(a, val);
            }
            found
        } else {
            let found: u32 = self.read32(a);
            if found == compare {
                self.write32(a, val);
            }
            found
        }
    }
}

} // verus!
