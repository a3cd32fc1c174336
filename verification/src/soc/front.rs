//! What the host does with the chip: consoles, virtual devices, images,
//! snapshots.

use super::irq::OWN_SOURCES;
use super::{EmuEvent, Soc, SocState, EVT_GPIO};
use crate::memmap::DRAM_BASE;
use crate::memory::MemState;
use crate::bytes::word_from_le;
use crate::flashenc::{crypt_enabled, flashenc_key_words};
use crate::pads::{PadState, Pads, PIN_COUNT};
use crate::spi::SpiState;
use crate::touch::Touch;
use crate::twai::FRAME_LEN;
use crate::uart::UartState;
use crate::ulp::Ulp;
use crate::usb_otg::OtgState;
use crate::usb_serial_jtag::JtagState;
use vstd::prelude::*;

verus! {

broadcast use crate::soc::sizes::lemma_sized;

/// What stays powered in deep sleep: the RTC memories, the coprocessor and the
/// touch controller.
pub struct RtcRetain {
    slow: Vec<u8>,
    fast: Vec<u8>,
    ulp: Ulp,
    touch: Touch,
}

impl RtcRetain {
    /// The snapshot holds the retained part of `s`.
    pub closed spec fn holds(self, s: SocState) -> bool {
        &&& self.slow@ == s.mem.rtc_slow
        &&& self.fast@ == s.mem.rtc_fast
        &&& self.ulp@ == s.ulp
        &&& self.touch@ == s.touch
    }

    /// The memories have their sizes, and the coprocessor is sound.
    pub closed spec fn wf(self) -> bool {
        self.ulp@.wf() && self.slow@.len() == crate::memmap::RTC_SLOW_SIZE && self.fast@.len()
            == crate::memmap::RTC_FAST_SIZE
    }

    /// `s` with its retained part replaced by the snapshot.
    pub closed spec fn onto(self, s: SocState) -> SocState {
        SocState {
            mem: MemState { rtc_slow: self.slow@, rtc_fast: self.fast@, ..s.mem },
            ulp: self.ulp@,
            touch: self.touch@,
            ..s
        }
    }
}

/// Output selection of a pad that is not held over deep sleep.
pub const DEFAULT_SEL: u32 = 0x80;

/// Output registers of pads 0..=31, and which pads are held over deep sleep.
pub struct PadHold {
    pub out: u32,
    pub enable: u32,
    pub sel: [u32; 32],
    pub mask: u32,
}

impl PadHold {
    /// The registers of `p`, with the given hold mask.
    pub open spec fn of(self, p: PadState, mask: u32) -> bool {
        &&& self.out == p.out as u32
        &&& self.enable == p.enable as u32
        &&& forall|i: int| 0 <= i < 32 ==> self.sel@[i] == p.sel(i)
        &&& self.mask == mask
    }

    /// Selection of pad `i` after the restart.
    pub open spec fn held_sel(self, i: int) -> u32 {
        if i < 32 && self.mask & (1u32 << i as u32) != 0 {
            self.sel@[i]
        } else {
            DEFAULT_SEL
        }
    }
}

/// Words of a camera frame; the last one is zero-filled.
pub open spec fn frame_words(bytes: Seq<u8>) -> Seq<u32> {
    Seq::new(
        ((bytes.len() + 3) / 4) as nat,
        |i: int|
            crate::bytes::le_word(
                crate::memory::at(bytes, 4 * i),
                crate::memory::at(bytes, 4 * i + 1),
                crate::memory::at(bytes, 4 * i + 2),
                crate::memory::at(bytes, 4 * i + 3),
            ),
    )
}

impl SocState {
    /// Readback word with the first `n` camera inputs at their driven levels.
    pub open spec fn camera_word(self, levels: Seq<u32>, n: nat) -> u32
        decreases n,
    {
        if n == 0 {
            self.pad_word()
        } else {
            let v = self.camera_word(levels, (n - 1) as nat);
            match self.pads.route((149 + n - 1) as u32) {
                Some((pin, inv)) => {
                    let inverted = if inv {
                        1u32
                    } else {
                        0u32
                    };
                    if pin >= 32 {
                        v
                    } else if levels[n - 1] ^ inverted != 0 {
                        v | (1u32 << pin)
                    } else {
                        v & !(1u32 << pin)
                    }
                },
                None => v,
            }
        }
    }

    pub open spec fn uart(self, n: int) -> UartState {
        if n == 0 {
            self.uart0
        } else if n == 1 {
            self.uart1
        } else {
            self.uart2
        }
    }

    pub open spec fn with_uart(self, n: int, u: UartState) -> SocState {
        if n == 0 {
            SocState { uart0: u, ..self }
        } else if n == 1 {
            SocState { uart1: u, ..self }
        } else {
            SocState { uart2: u, ..self }
        }
    }

    pub open spec fn spi(self, chan: int) -> SpiState {
        if chan == 0 {
            self.spi2
        } else {
            self.spi3
        }
    }

    pub open spec fn with_spi(self, chan: int, spi: SpiState) -> SocState {
        if chan == 0 {
            SocState { spi2: spi, ..self }
        } else {
            SocState { spi3: spi, ..self }
        }
    }

    /// Output mask of the first `n` pads: the levels of those that drive.
    pub open spec fn outputs_upto(self, n: nat) -> u32
        decreases n,
    {
        if n == 0 {
            0
        } else {
            let v = self.outputs_upto((n - 1) as nat);
            let i = n - 1;
            if self.pads.enabled(i) {
                v | (self.pad_driven(i) << i as u32)
            } else {
                v
            }
        }
    }

    /// Output mask of pads 0..=31.
    pub open spec fn outputs(self) -> u32 {
        self.outputs_upto(32)
    }

    /// The chip after its events have been handed out.
    pub open spec fn drained(self) -> SocState {
        SocState { events: Seq::empty(), last_gpio_out: self.outputs(), ..self }
    }

    /// Dedicated input channel `c`: the level at its matrix input.
    pub open spec fn dedic_level(self, c: int) -> u32 {
        self.pads.input(dedic_signal(c), self.readback(), 0) & 1
    }

    pub open spec fn dedic_upto(self, n: nat) -> u32
        decreases n,
    {
        if n == 0 {
            0
        } else {
            self.dedic_upto((n - 1) as nat) | (self.dedic_level(n - 1) << ((n - 1) as u32))
        }
    }
}

/// Matrix input of dedicated channel `c`.
pub open spec fn dedic_signal(c: int) -> u32 {
    if c < 3 {
        (129 + c) as u32
    } else if c < 7 {
        (252 + c - 3) as u32
    } else {
        54
    }
}

/// Events for the pads below `n` that differ between two output masks.
pub open spec fn edges(prev: u32, cur: u32, n: nat) -> Seq<EmuEvent>
    decreases n,
{
    if n == 0 {
        Seq::empty()
    } else {
        let before = edges(prev, cur, (n - 1) as nat);
        let i = (n - 1) as u32;
        if cur & (1u32 << i) != prev & (1u32 << i) {
            before.push(EmuEvent { kind: EVT_GPIO, a: i, b: (cur >> i) & 1 })
        } else {
            before
        }
    }
}

impl Soc {
    /// Console bytes that UART `n` has sent and nobody has taken.
    pub fn uart_tx_len(&self, n: usize) -> (len: usize)
        requires
            self@.wf(),
            n < 3,
        ensures
            len == self@.uart(n as int).tx_out.len(),
    {
        if n == 0 {
            self.uart0.tx_len()
        } else if n == 1 {
            self.uart1.tx_len()
        } else {
            self.uart2.tx_len()
        }
    }

    /// UART `n` has sent bytes that nobody has taken.
    pub fn uart_tx_pending(&self, n: usize) -> (r: bool)
        requires
            self@.wf(),
            n < 3,
        ensures
            r == (self@.uart(n as int).tx_out.len() != 0),
    {
        self.uart_tx_len(n) != 0
    }

    /// Take the bytes that UART `n` has sent.
    pub fn take_uart_tx(&mut self, n: usize) -> (bytes: Vec<u8>)
        requires
            old(self)@.wf(),
            n < 3,
        ensures
            bytes@ == old(self)@.uart(n as int).tx_out,
            final(self)@ == old(self)@.with_uart(
                n as int,
                UartState { tx_out: Seq::empty(), ..old(self)@.uart(n as int) },
            ),
            final(self)@.wf(),
    {
        reveal(SocState::wf);
        if n == 0 {
            self.uart0.take_tx()
        } else if n == 1 {
            self.uart1.take_tx()
        } else {
            self.uart2.take_tx()
        }
    }

    /// Receive a byte on UART `n`.
    pub fn uart_inject_rx(&mut self, n: usize, byte: u8)
        requires
            old(self)@.wf(),
            n < 3,
        ensures
            final(self)@ == (SocState {
                src_valid: false,
                ..old(self)@.with_uart(n as int, old(self)@.uart(n as int).received(byte))
            }),
            final(self)@.wf(),
    {
        reveal(SocState::wf);
        self.src_valid = false;
        if n == 0 {
            self.uart0.inject_rx(byte);
        } else if n == 1 {
            self.uart1.inject_rx(byte);
        } else {
            self.uart2.inject_rx(byte);
        }
    }

    /// Send console bytes of the host on UART `n`.
    pub fn uart_push_tx(&mut self, n: usize, bytes: &[u8])
        requires
            old(self)@.wf(),
            n < 3,
        ensures
            final(self)@ == old(self)@.with_uart(
                n as int,
                UartState {
                    tx_out: old(self)@.uart(n as int).tx_out + bytes@,
                    ..old(self)@.uart(n as int)
                },
            ),
            final(self)@.wf(),
    {
        reveal(SocState::wf);
        if n == 0 {
            self.uart0.push_tx(bytes);
        } else if n == 1 {
            self.uart1.push_tx(bytes);
        } else {
            self.uart2.push_tx(bytes);
        }
    }

    /// Bytes that the USB console has sent and nobody has taken.
    pub fn usb_tx_len(&self) -> (len: usize)
        requires
            self@.wf(),
        ensures
            len == self@.usb.tx_out.len(),
    {
        self.usb.tx_len()
    }

    /// The USB console has sent bytes that nobody has taken.
    pub fn usb_tx_pending(&self) -> (r: bool)
        requires
            self@.wf(),
        ensures
            r == (self@.usb.tx_out.len() != 0),
    {
        self.usb.tx_len() != 0
    }

    /// Take the bytes that the USB console has sent.
    pub fn take_usb_serial_tx(&mut self) -> (bytes: Vec<u8>)
        requires
            old(self)@.wf(),
        ensures
            bytes@ == old(self)@.usb.tx_out,
            final(self)@ == (SocState {
                usb: JtagState { tx_out: Seq::empty(), ..old(self)@.usb },
                ..old(self)@
            }),
            final(self)@.wf(),
    {
        reveal(SocState::wf);
        self.usb.take_tx()
    }

    /// Receive a byte on the USB console.
    pub fn usb_inject_rx(&mut self, byte: u8)
        requires
            old(self)@.wf(),
        ensures
            final(self)@ == (SocState {
                usb: old(self)@.usb.received(byte),
                src_valid: false,
                ..old(self)@
            }),
            final(self)@.wf(),
    {
        reveal(SocState::wf);
        self.src_valid = false;
        self.usb.inject_rx(byte);
    }

    /// The USB host sees the device go away.
    pub fn usb_otg_disconnect(&mut self)
        requires
            old(self)@.wf(),
        ensures
            final(self)@ == (SocState { otg: old(self)@.otg.disconnected(), ..old(self)@ }),
            final(self)@.wf(),
    {
        reveal(SocState::wf);
        self.otg.host_disconnect();
    }

    /// The USB host resets the bus and enumerates.
    pub fn usb_host_bus_reset(&mut self)
        requires
            old(self)@.wf(),
        ensures
            final(self)@ == (SocState { otg: old(self)@.otg.after_bus_reset(), ..old(self)@ }),
            final(self)@.wf(),
    {
        reveal(SocState::wf);
        self.otg.usb_host_bus_reset();
    }

    /// The USB host sends a setup packet.
    pub fn usb_host_setup(&mut self, pkt: [u8; 8])
        requires
            old(self)@.wf(),
        ensures
            final(self)@ == (SocState { otg: old(self)@.otg.after_host_setup(pkt@), ..old(self)@ }),
            final(self)@.wf(),
    {
        reveal(SocState::wf);
        self.otg.usb_host_setup(pkt);
    }

    /// The USB host completes the status stage.
    pub fn usb_host_status_out(&mut self)
        requires
            old(self)@.wf(),
        ensures
            final(self)@ == (SocState { otg: old(self)@.otg.after_host_status(), ..old(self)@ }),
            final(self)@.wf(),
    {
        reveal(SocState::wf);
        self.otg.usb_host_status_out();
    }

    /// Take the bytes that the USB host has read.
    pub fn usb_host_take_in(&mut self) -> (bytes: Vec<u8>)
        requires
            old(self)@.wf(),
        ensures
            bytes@ == old(self)@.otg.dev_in_capture,
            final(self)@ == (SocState {
                otg: OtgState { dev_in_capture: Seq::empty(), ..old(self)@.otg },
                ..old(self)@
            }),
            final(self)@.wf(),
    {
        reveal(SocState::wf);
        self.otg.usb_host_take_in()
    }

    /// Receive a frame of another CAN node.
    pub fn twai_inject_rx(&mut self, frame: [u8; FRAME_LEN])
        requires
            old(self)@.wf(),
        ensures
            final(self)@ == (SocState {
                twai: old(self)@.twai.heard(frame@),
                src_valid: false,
                ..old(self)@
            }),
            final(self)@.wf(),
    {
        reveal(SocState::wf);
        self.src_valid = false;
        self.twai.inject_rx(frame);
    }

    /// Set the counter of a touch pad.
    pub fn touch_inject(&mut self, pad: usize, value: u32)
        requires
            old(self)@.wf(),
        ensures
            final(self)@ == (SocState {
                touch: old(self)@.touch.with_injected(pad as int, value),
                ..old(self)@
            }),
            final(self)@.wf(),
    {
        reveal(SocState::wf);
        self.touch.inject(pad, value);
    }

    /// The boot ROM, for loading it.
    pub fn irom_mut(&mut self) -> (rom: &mut [u8])
        requires
            old(self)@.wf(),
        ensures
            rom@ == old(self)@.mem.irom,
            final(self)@ == (SocState {
                mem: MemState { irom: final(rom)@, ..old(self)@.mem },
                ..old(self)@
            }),
            final(rom)@.len() == old(self)@.mem.irom.len() ==> final(self)@.wf(),
    {
        reveal(SocState::wf);
        self.mem.irom_mut()
    }

    /// Load bytes into the flash at `offset`, while encryption is off.
    pub fn load_flash_image(&mut self, offset: u32, bytes: &[u8])
        requires
            old(self)@.wf(),
            !old(self)@.mem.crypt,
        ensures
            final(self)@ == (SocState {
                mem: MemState {
                    flash: crate::memory::overlaid(old(self)@.mem.flash, offset as int, bytes@),
                    ..old(self)@.mem
                },
                ..old(self)@
            }),
            final(self)@.wf(),
    {
        reveal(SocState::wf);
        self.mem.load_flash_image(offset, bytes);
    }

    /// Load bytes into the flash at `offset`. While encryption is on, `view` is
    /// what the whole flash then decrypts to.
    pub fn load_encrypted_image(&mut self, offset: u32, bytes: &[u8], view: &[u8])
        requires
            old(self)@.wf(),
        ensures
            final(self)@ == (SocState {
                mem: MemState {
                    flash: crate::memory::overlaid(old(self)@.mem.flash, offset as int, bytes@),
                    ..old(self)@.mem
                }.with_crypt(old(self)@.mem.crypt, view@),
                ..old(self)@
            }),
            final(self)@.wf(),
    {
        reveal(SocState::wf);
        let on = self.mem.flash_enc_enabled();
        self.mem.set_flash_crypt(false, view);
        self.mem.load_flash_image(offset, bytes);
        self.mem.set_flash_crypt(on, view);
    }

    /// The flash contents.
    pub fn flash_image(&self) -> (image: &[u8])
        requires
            self@.wf(),
        ensures
            image@ == self@.mem.flash,
    {
        self.mem.flash_image()
    }

    /// Flash encryption is on.
    pub fn flash_enc_enabled(&self) -> (on: bool)
        requires
            self@.wf(),
        ensures
            on == self@.mem.crypt,
    {
        self.mem.flash_enc_enabled()
    }

    /// Copy of the flash as the boot code sees it: decrypted while encryption is
    /// on.
    pub fn flash_image_decrypted(&self) -> (image: Vec<u8>)
        requires
            self@.wf(),
        ensures
            image@ == self@.mem.flash_view(),
    {
        self.mem.flash_image_decrypted()
    }

    /// Follow the encryption counter of the eFuses, after it or the flash has
    /// changed. `view` is what the flash decrypts to.
    pub fn refresh_flashenc_mirror(&mut self, crypt_cnt: u32, view: &[u8])
        requires
            old(self)@.wf(),
        ensures
            final(self)@ == (SocState {
                mem: old(self)@.mem.with_crypt(crate::flashenc::odd(crypt_cnt), view@),
                ..old(self)@
            }),
            final(self)@.wf(),
    {
        reveal(SocState::wf);
        self.mem.set_flash_crypt(crypt_enabled(crypt_cnt), view);
    }

    /// Provision a device with an encryption key: the words of the key block and
    /// the encryption counter with its first bit burned are returned, and the
    /// counter is followed.
    pub fn flashenc_provision(&mut self, key: &[u8; 32], crypt_cnt: u32, view: &[u8]) -> (fuses: (
        [u32; 8],
        u32,
    ))
        requires
            old(self)@.wf(),
        ensures
            forall|i: int|
                0 <= i < 8 ==> fuses.0@[i] == crate::flashenc::be_word(
                    key@[4 * i],
                    key@[4 * i + 1],
                    key@[4 * i + 2],
                    key@[4 * i + 3],
                ),
            fuses.1 == crypt_cnt | 1,
            final(self)@ == (SocState {
                mem: old(self)@.mem.with_crypt(crate::flashenc::odd(crypt_cnt | 1), view@),
                ..old(self)@
            }),
            final(self)@.wf(),
    {
        let words = flashenc_key_words(key);
        self.refresh_flashenc_mirror(crypt_cnt | 1, view);
        (words, crypt_cnt | 1)
    }

    /// Encrypt the blocks of a region of the flash; `cipher` holds the
    /// ciphertext of the blocks named by [`flashenc_blocks`], in order. Nothing
    /// is done unless encryption is on.
    ///
    /// [`flashenc_blocks`]: crate::flashenc::flashenc_blocks
    pub fn flashenc_encrypt_region(&mut self, off: u32, len: u32, cipher: &[u8])
        requires
            old(self)@.wf(),
        ensures
            final(self)@ == (SocState {
                mem: old(self)@.mem.with_encrypted(off, len, cipher@),
                ..old(self)@
            }),
            final(self)@.wf(),
    {
        reveal(SocState::wf);
        self.mem.flashenc_encrypt_region(off, len, cipher);
    }

    /// Make the application image at `app_flash_off` ready to run.
    pub fn map_app_flash_segments(&mut self, img: &[u8], app_flash_off: u32)
        requires
            old(self)@.wf(),
        ensures
            final(self)@ == (SocState {
                mem: old(self)@.mem.with_app(img@, app_flash_off as int),
                ..old(self)@
            }),
            final(self)@.wf(),
    {
        reveal(SocState::wf);
        proof {
            crate::memory::law_app_keeps_sizes(self@.mem, img@, app_flash_off as int);
        }
        self.mem.map_app_flash_segments(img, app_flash_off);
    }

    /// PSRAM contents, to be kept over a reset.
    pub fn psram_snapshot(&self) -> (snap: Vec<u8>)
        requires
            self@.wf(),
        ensures
            snap@ == self@.mem.psram,
    {
        self.mem.psram_snapshot()
    }

    /// Put PSRAM contents back; a snapshot of another size is ignored.
    pub fn restore_psram(&mut self, snap: Vec<u8>)
        requires
            old(self)@.wf(),
        ensures
            final(self)@ == (SocState {
                mem: MemState {
                    psram: if snap@.len() == old(self)@.mem.psram.len() {
                        snap@
                    } else {
                        old(self)@.mem.psram
                    },
                    ..old(self)@.mem
                },
                ..old(self)@
            }),
            final(self)@.wf(),
    {
        reveal(SocState::wf);
        self.mem.restore_psram(snap);
    }

    /// Lose the PSRAM contents.
    pub fn psram_wipe(&mut self)
        requires
            old(self)@.wf(),
        ensures
            final(self)@ == (SocState {
                mem: MemState {
                    psram: crate::memory::zeros(old(self)@.mem.psram.len()),
                    ..old(self)@.mem
                },
                ..old(self)@
            }),
            final(self)@.wf(),
    {
        reveal(SocState::wf);
        self.mem.psram_wipe();
    }

    /// The ROM is booting.
    pub fn rom_boot_mode(&self) -> (on: bool)
        requires
            self@.wf(),
        ensures
            on == self@.mem.rom_boot,
    {
        self.mem.rom_boot_mode()
    }

    /// Enter or leave the ROM boot phase.
    pub fn set_rom_boot_mode(&mut self, on: bool)
        requires
            old(self)@.wf(),
        ensures
            final(self)@ == (SocState {
                mem: MemState { rom_boot: on, ..old(self)@.mem },
                ..old(self)@
            }),
            final(self)@.wf(),
    {
        reveal(SocState::wf);
        self.mem.set_rom_boot_mode(on);
    }

    /// Word of the data-bus SRAM; 0 elsewhere.
    pub fn read_dram(&self, addr: u32) -> (w: u32)
        requires
            self@.wf(),
        ensures
            w == if addr >= DRAM_BASE {
                crate::bytes::word_at(self@.mem.sram, addr - DRAM_BASE)
            } else {
                0
            },
    {
        if addr >= DRAM_BASE {
            self.mem.sram_word(addr - DRAM_BASE)
        } else {
            0
        }
    }

    /// Take the bytes of the last transfer on SPI channel `chan`.
    pub fn spi_take_tx(&mut self, chan: usize) -> (bytes: Vec<u8>)
        requires
            old(self)@.wf(),
            chan < 2,
        ensures
            bytes@ == if chan == 0 {
                old(self)@.spi2_tx
            } else {
                old(self)@.spi3_tx
            },
            final(self)@ == if chan == 0 {
                SocState { spi2_tx: Seq::empty(), ..old(self)@ }
            } else {
                SocState { spi3_tx: Seq::empty(), ..old(self)@ }
            },
            final(self)@.wf(),
    {
        reveal(SocState::wf);
        let mut bytes: Vec<u8> = Vec::new();
        if chan == 0 {
            std::mem::swap(&mut bytes, &mut self.spi2_tx);
        } else {
            std::mem::swap(&mut bytes, &mut self.spi3_tx);
        }
        bytes
    }

    /// Supply the bytes that the next transfer on `chan` reads.
    pub fn spi_inject_miso(&mut self, chan: usize, bytes: &[u8])
        requires
            old(self)@.wf(),
            chan < 2,
        ensures
            final(self)@ == old(self)@.with_spi(
                chan as int,
                SpiState { pending_miso: Some(bytes@), ..old(self)@.spi(chan as int) },
            ),
            final(self)@.wf(),
    {
        reveal(SocState::wf);
        if chan == 0 {
            self.spi2.inject_miso(bytes);
        } else {
            self.spi3.inject_miso(bytes);
        }
    }

    /// Fill the store of the virtual wide-mode device on `chan`.
    pub fn spi_quad_fake_provision(&mut self, chan: usize, pattern: &[u8])
        requires
            old(self)@.wf(),
            chan < 2,
        ensures
            final(self)@ == old(self)@.with_spi(
                chan as int,
                SpiState { quad_fake: Some(pattern@), ..old(self)@.spi(chan as int) },
            ),
            final(self)@.wf(),
    {
        reveal(SocState::wf);
        if chan == 0 {
            self.spi2.quad_fake_provision(pattern);
        } else {
            self.spi3.quad_fake_provision(pattern);
        }
    }

    /// Put an empty SD card of `blocks` blocks on `chan`.
    pub fn spi_sdspi_attach(&mut self, chan: usize, blocks: usize)
        requires
            old(self)@.wf(),
            chan < 2,
            blocks * 512 <= usize::MAX,
        ensures
            final(self)@ == old(self)@.with_spi(
                chan as int,
                SpiState {
                    sdspi: old(self)@.spi(chan as int).sdspi.attached_with(
                        Seq::new((blocks * 512) as nat, |i: int| 0u8),
                    ),
                    ..old(self)@.spi(chan as int)
                },
            ),
            final(self)@.wf(),
    {
        reveal(SocState::wf);
        if chan == 0 {
            self.spi2.sdspi_attach(blocks);
        } else {
            self.spi3.sdspi_attach(blocks);
        }
    }

    /// Put an SD card with the given contents on `chan`.
    pub fn spi_sdspi_attach_image(&mut self, chan: usize, image: &[u8])
        requires
            old(self)@.wf(),
            chan < 2,
        ensures
            final(self)@ == old(self)@.with_spi(
                chan as int,
                SpiState {
                    sdspi: old(self)@.spi(chan as int).sdspi.attached_with(image@),
                    ..old(self)@.spi(chan as int)
                },
            ),
            final(self)@.wf(),
    {
        reveal(SocState::wf);
        if chan == 0 {
            self.spi2.sdspi_attach_image(image);
        } else {
            self.spi3.sdspi_attach_image(image);
        }
    }

    /// Wire mode of `chan`: 0 single, 1 dual, 2 quad.
    pub fn spi_quad_mode(&self, chan: usize) -> (mode: u32)
        requires
            self@.wf(),
            chan < 2,
        ensures
            mode == self@.spi(chan as int).quad_mode(),
    {
        if chan == 0 {
            self.spi2.quad_mode()
        } else {
            self.spi3.quad_mode()
        }
    }

    /// Pad registers and matrix routing; the readback is taken anew.
    pub fn pads_mut(&mut self) -> (pads: &mut Pads)
        requires
            old(self)@.wf(),
        ensures
            pads@ == old(self)@.pads,
            final(self)@ == (SocState { pads: final(pads)@, rb_valid: false, ..old(self)@ }),
            final(self)@.wf(),
    {
        reveal(SocState::wf);
        self.rb_valid = false;
        let pads = &mut self.pads;
        proof {
            crate::pads::lemma_pads_wf(*final(pads));
        }
        pads
    }

    /// Level of a matrix signal that a block outside drives.
    pub fn set_signal(&mut self, sig: usize, level: u32)
        requires
            old(self)@.wf(),
        ensures
            final(self)@ == if sig < 256 {
                SocState { ext_level: old(self)@.ext_level.update(sig as int, level & 1), ..old(self)@ }
            } else {
                old(self)@
            },
            final(self)@.wf(),
    {
        reveal(SocState::wf);
        if sig < 256 {
            self.ext_level[sig] = level & 1;
            assert(self@ =~= SocState {
                ext_level: old(self)@.ext_level.update(sig as int, level & 1),
                ..old(self)@
            });
        }
    }

    /// Interrupt sources that blocks outside raise. Those of the blocks here, and
    /// the cross-core ones, are not theirs to raise.
    pub fn set_outside_sources(&mut self, src: u128)
        requires
            old(self)@.wf(),
        ensures
            final(self)@ == (SocState {
                ext_src: src & !OWN_SOURCES,
                src_valid: false,
                ..old(self)@
            }),
            final(self)@.wf(),
    {
        reveal(SocState::wf);
        self.src_valid = false;
        self.ext_src = src & !OWN_SOURCES;
        assert((src & !OWN_SOURCES) & OWN_SOURCES == 0) by (bit_vector);
        assert(self@ =~= SocState {
            ext_src: src & !OWN_SOURCES,
            src_valid: false,
            ..old(self)@
        });
    }

    /// Dedicated output latches of a core.
    pub fn set_dedic_out(&mut self, core: usize, bits: u32)
        requires
            old(self)@.wf(),
        ensures
            final(self)@ == if core < 2 {
                SocState { dedic_out: old(self)@.dedic_out.update(core as int, bits), ..old(self)@ }
            } else {
                old(self)@
            },
            final(self)@.wf(),
    {
        reveal(SocState::wf);
        if core < 2 {
            self.dedic_out[core] = bits;
            assert(self@ =~= SocState {
                dedic_out: old(self)@.dedic_out.update(core as int, bits),
                ..old(self)@
            });
        }
    }

    /// Dedicated input channels, channel `c` in bit `c`.
    pub fn dedic_gpio_in(&mut self) -> (v: u32)
        requires
            old(self)@.wf(),
        ensures
            v == old(self)@.dedic_upto(8),
            final(self)@ == old(self)@.after_readback(),
            final(self)@.wf(),
    {
        reveal(SocState::wf);
        let ghost start = self@;
        let rb: u32 = self.gpio_in_readback();
        let mut v: u32 = 0;
        let mut c: u32 = 0;
        while c < 8
            invariant
                c <= 8,
                rb == start.readback(),
                self@.pads == start.pads,
                v == start.dedic_upto(c as nat),
            decreases 8 - c,
        {
            let sig: u32 = if c < 3 {
                129 + c
            } else if c < 7 {
                252 + c - 3
            } else {
                54
            };
            let level: u32 = self.pads.input(sig, rb, 0) & 1;
            v = v | (level << c);
            c = c + 1;
        }
        v
    }

    /// Output mask of pads 0..=31.
    pub fn gpio_output(&self) -> (v: u32)
        requires
            self@.wf(),
        ensures
            v == self@.outputs(),
    {
        let mut v: u32 = 0;
        let mut i: u32 = 0;
        while i < 32
            invariant
                self@.wf(),
                i <= 32,
                v == self@.outputs_upto(i as nat),
            decreases 32 - i,
        {
            if self.pads.enabled(i as usize) {
                v = v | (self.pad_driven(i as usize) << i);
            }
            i = i + 1;
        }
        v
    }

    /// Take the events since the last call, and the pads that have changed.
    pub fn drain_events(&mut self) -> (events: Vec<EmuEvent>)
        requires
            old(self)@.wf(),
        ensures
            events@ == old(self)@.events + edges(
                old(self)@.last_gpio_out,
                old(self)@.outputs(),
                32,
            ),
            events@ == handed_out(old(self)@),
            final(self)@ == old(self)@.drained(),
            final(self)@.wf(),
    {
        reveal(SocState::wf);
        let cur: u32 = self.gpio_output();
        let prev: u32 = self.last_gpio_out;
        let mut events: Vec<EmuEvent> = Vec::new();
        std::mem::swap(&mut events, &mut self.events);
        let mut i: u32 = 0;
        assert(events@ =~= old(self)@.events + edges(prev, cur, 0));
        while i < 32
            invariant
                i <= 32,
                events@ == old(self)@.events + edges(prev, cur, i as nat),
            decreases 32 - i,
        {
            let bit: u32 = 1u32 << i;
            if cur & bit != prev & bit {
                events.push(EmuEvent { kind: EVT_GPIO, a: i, b: (cur >> i) & 1 });
            }
            i = i + 1;
            assert(events@ =~= old(self)@.events + edges(prev, cur, i as nat));
        }
        self.last_gpio_out = cur;
        assert(self@ =~= old(self)@.drained());
        events
    }

    /// Length of the instruction run at `pc` of a core. `branches` holds, for the
    /// instructions that decode from `pc` on, whether they can leave the linear
    /// flow and so end it.
    pub fn fast_len_for(&mut self, core: usize, pc: u32, branches: &[bool]) -> (r: Option<u8>)
        requires
            old(self)@.wf(),
            core < 2,
        ensures
            r == old(self)@.blocks.len_for(core as int, pc, branches@),
            final(self)@ == (SocState {
                blocks: old(self)@.blocks.after_len_for(core as int, pc, branches@),
                ..old(self)@
            }),
            final(self)@.wf(),
    {
        reveal(SocState::wf);
        let r: Option<u8> = self.blocks.fast_len_for(core, pc, branches);
        assert(self@ =~= SocState {
            blocks: old(self)@.blocks.after_len_for(core as int, pc, branches@),
            ..old(self)@
        });
        r
    }

    /// Pad readback with the levels that a camera drives on its inputs, if one
    /// does. It is never cached.
    pub fn gpio_in_readback_with_cam(&self, camera: Option<[u32; 4]>) -> (v: u32)
        requires
            self@.wf(),
        ensures
            v == match camera {
                Some(levels) => self@.camera_word(levels@, 4),
                None => self@.pad_word(),
            },
    {
        let mut v: u32 = self.pad_word();
        match camera {
            None => v,
            Some(levels) => {
                let mut i: u32 = 0;
                while i < 4
                    invariant
                        i <= 4,
                        self@.wf(),
                        v == self@.camera_word(levels@, i as nat),
                    decreases 4 - i,
                {
                    match self.pads.route(149 + i) {
                        Some((pin, inv)) => {
                            if pin < 32 {
                                let inverted: u32 = if inv {
                                    1
                                } else {
                                    0
                                };
                                if levels[i as usize] ^ inverted != 0 {
                                    v = v | (1u32 << pin);
                                } else {
                                    v = v & !(1u32 << pin);
                                }
                            }
                        },
                        None => {},
                    }
                    i = i + 1;
                }
                v
            },
        }
    }

    /// Words of a camera frame; the last one is zero-filled.
    pub fn cam_inject_frame(bytes: &[u8]) -> (words: Vec<u32>)
        ensures
            words@ == frame_words(bytes@),
    {
        let mut words: Vec<u32> = Vec::new();
        let mut i: usize = 0;
        assert(words@ =~= frame_words(bytes@).take(0));
        while i < bytes.len()
            invariant
                i <= bytes@.len(),
                i == bytes@.len() || i == 4 * words@.len(),
                words@.len() <= frame_words(bytes@).len(),
                i == bytes@.len() ==> words@.len() == frame_words(bytes@).len(),
                words@ == frame_words(bytes@).take(words@.len() as int),
            decreases bytes@.len() - i,
        {
            let n: usize = bytes.len() - i;
            let b1: u8 = if n > 1 {
                bytes[i + 1]
            } else {
                0
            };
            let b2: u8 = if n > 2 {
                bytes[i + 2]
            } else {
                0
            };
            let b3: u8 = if n > 3 {
                bytes[i + 3]
            } else {
                0
            };
            let ghost before = words@;
            words.push(word_from_le(bytes[i], b1, b2, b3));
            i = if n > 4 {
                i + 4
            } else {
                bytes.len()
            };
            assert(words@ =~= frame_words(bytes@).take(words@.len() as int));
        }
        assert(words@ =~= frame_words(bytes@));
        words
    }

    /// Copy the output registers of pads 0..=31, to be held over deep sleep for
    /// the pads in `mask`.
    pub fn snapshot_gpio_hold(&self, mask: u32) -> (hold: PadHold)
        requires
            self@.wf(),
        ensures
            hold.of(self@.pads, mask),
    {
        let mut sel: [u32; 32] = [0u32; 32];
        let mut i: usize = 0;
        while i < 32
            invariant
                i <= 32,
                forall|j: int| 0 <= j < i ==> sel@[j] == self@.pads.sel(j),
            decreases 32 - i,
        {
            sel[i] = self.pads.out_sel(i);
            i = i + 1;
        }
        PadHold { out: self.pads.out_low(), enable: self.pads.enable_low(), sel, mask }
    }

    /// Put held pads back after a restart: the others drive nothing and get the
    /// default selection.
    pub fn restore_gpio_hold(&mut self, hold: PadHold)
        requires
            old(self)@.wf(),
        ensures
            final(self)@.pads.out == (hold.out & hold.mask) as u64,
            final(self)@.pads.enable == (hold.enable & hold.mask) as u64,
            forall|i: int|
                0 <= i < PIN_COUNT ==> final(self)@.pads.sel(i) == #[trigger] hold.held_sel(i),
            final(self)@ == (SocState {
                pads: PadState {
                    out: final(self)@.pads.out,
                    enable: final(self)@.pads.enable,
                    out_sel: final(self)@.pads.out_sel,
                    ..old(self)@.pads
                },
                rb_valid: false,
                ..old(self)@
            }),
            final(self)@.wf(),
    {
        reveal(SocState::wf);
        self.rb_valid = false;
        self.pads.set_outputs((hold.out & hold.mask) as u64, (hold.enable & hold.mask) as u64);
        let ghost start = self@;
        let mut i: usize = 0;
        while i < PIN_COUNT
            invariant
                i <= PIN_COUNT,
                self@.pads.wf(),
                forall|j: int| 0 <= j < i ==> self@.pads.sel(j) == #[trigger] hold.held_sel(j),
                self@ == (SocState {
                    pads: PadState { out_sel: self@.pads.out_sel, ..start.pads },
                    ..start
                }),
            decreases PIN_COUNT - i,
        {
            let held = i < 32 && hold.mask & (1u32 << i as u32) != 0;
            let sel: u32 = if held {
                hold.sel[i]
            } else {
                DEFAULT_SEL
            };
            let ghost before = self@;
            self.pads.set_out_sel(i, sel);
            i = i + 1;
            assert(self@ =~= SocState {
                pads: PadState { out_sel: self@.pads.out_sel, ..start.pads },
                ..start
            });
            assert forall|j: int| 0 <= j < i implies self@.pads.sel(j) == #[trigger] hold.held_sel(
                j,
            ) by {
                if j < i - 1 {
                    assert(before.pads.sel(j) == hold.held_sel(j));
                }
            }
        }
    }

    /// Copy what stays powered in deep sleep.
    pub fn snapshot_rtc(&self) -> (snap: RtcRetain)
        requires
            self@.wf(),
        ensures
            snap.holds(self@),
            snap.wf(),
    {
        reveal(SocState::wf);
        let (slow, fast) = self.mem.rtc_snapshot();
        RtcRetain { slow, fast, ulp: self.ulp.clone(), touch: self.touch.clone() }
    }

    /// Put back what stayed powered in deep sleep.
    pub fn restore_rtc(&mut self, snap: RtcRetain)
        requires
            old(self)@.wf(),
            snap.wf(),
        ensures
            final(self)@ == snap.onto(old(self)@),
            final(self)@.wf(),
    {
        reveal(SocState::wf);
        self.mem.restore_rtc(snap.slow, snap.fast);
        self.ulp = snap.ulp;
        self.touch = snap.touch;
        assert(self@ =~= snap.onto(old(self)@));
    }
}

/// What was retained of `s` is found again after a restart: the chip `t` with
/// the snapshot put back has the RTC memories, the coprocessor and the touch
/// controller of `s`, and everything else of `t`.
pub proof fn law_retained_over_deep_sleep(snap: RtcRetain, s: SocState, t: SocState)
    requires
        snap.holds(s),
    ensures
        snap.onto(t) == (SocState {
            mem: MemState { rtc_slow: s.mem.rtc_slow, rtc_fast: s.mem.rtc_fast, ..t.mem },
            ulp: s.ulp,
            touch: s.touch,
            ..t
        }),
{
}

/// With no output change and nothing queued there is no event, and a second
/// hand-out finds nothing.
pub proof fn law_drained_is_quiet(s: SocState)
    ensures
        s.drained().events == Seq::<EmuEvent>::empty(),
        edges(s.drained().last_gpio_out, s.drained().outputs(), 32) == Seq::<EmuEvent>::empty(),
{
    lemma_outputs_same(s, s.drained(), 32);
    lemma_no_edges(s.outputs(), 32);
}

proof fn lemma_no_edges(v: u32, n: nat)
    ensures
        edges(v, v, n) == Seq::<EmuEvent>::empty(),
    decreases n,
{
    if n > 0 {
        lemma_no_edges(v, (n - 1) as nat);
    }
}

/// The output mask depends on the pads and on what drives them alone.
proof fn lemma_outputs_same(s: SocState, t: SocState, n: nat)
    requires
        t == s.drained(),
    ensures
        t.outputs_upto(n) == s.outputs_upto(n),
    decreases n,
{
    if n > 0 {
        lemma_outputs_same(s, t, (n - 1) as nat);
        assert(t.pad_driven(n - 1) == s.pad_driven(n - 1));
    }
}

/// The events that a hand-out gives: what was queued, then the pads.
pub open spec fn handed_out(s: SocState) -> Seq<EmuEvent> {
    s.events + edges(s.last_gpio_out, s.outputs(), 32)
}

/// A hand-out reports the pads after what was queued: for each pad whose output bit
/// differs from that of the last hand-out, rising or falling, exactly one event with
/// its new level, in the order of the pads; no event for any other pad. What it
/// reports is then the state of reference for the next one.
pub proof fn law_changed_pads_are_reported(s: SocState, i: u32)
    requires
        i < 32,
    ensures
        ({
            let all = handed_out(s);
            let now = (s.outputs() >> i) & 1;
            let was = (s.last_gpio_out >> i) & 1;
            let pads = all.skip(s.events.len() as int);
            &&& all.take(s.events.len() as int) == s.events
            &&& now != was ==> exists|k: int|
                0 <= k < pads.len() && #[trigger] pads[k] == (EmuEvent {
                    kind: EVT_GPIO,
                    a: i,
                    b: now,
                })
            &&& now == was ==> forall|k: int| 0 <= k < pads.len() ==> (#[trigger] pads[k]).a != i
            &&& forall|j: int, k: int| 0 <= j < k < pads.len() ==> pads[j].a < pads[k].a
            &&& forall|k: int|
                0 <= k < pads.len() ==> (#[trigger] pads[k]).kind == EVT_GPIO && pads[k].a < 32
                    && pads[k].b == (s.outputs() >> pads[k].a) & 1
        }),
        s.drained().last_gpio_out == s.outputs(),
        s.drained().events.len() == 0,
{
    let all = handed_out(s);
    let e = edges(s.last_gpio_out, s.outputs(), 32);
    assert(all.take(s.events.len() as int) =~= s.events);
    assert(all.skip(s.events.len() as int) =~= e);
    lemma_edges(s.last_gpio_out, s.outputs(), i, 32);
}

proof fn lemma_edges(prev: u32, cur: u32, i: u32, n: nat)
    requires
        i < 32,
        n <= 32,
    ensures
        ({
            let e = edges(prev, cur, n);
            let now = (cur >> i) & 1;
            let was = (prev >> i) & 1;
            &&& i < n && now != was ==> exists|k: int|
                0 <= k < e.len() && #[trigger] e[k] == (EmuEvent { kind: EVT_GPIO, a: i, b: now })
            &&& now == was ==> forall|k: int| 0 <= k < e.len() ==> (#[trigger] e[k]).a != i
            &&& forall|j: int, k: int| 0 <= j < k < e.len() ==> e[j].a < e[k].a
            &&& forall|k: int|
                0 <= k < e.len() ==> (#[trigger] e[k]).kind == EVT_GPIO && e[k].a < n && e[k].b == (cur
                    >> e[k].a) & 1
        }),
    decreases n,
{
    if n > 0 {
        lemma_edges(prev, cur, i, (n - 1) as nat);
        let before = edges(prev, cur, (n - 1) as nat);
        let e = edges(prev, cur, n);
        let k = (n - 1) as u32;
        crate::bits::lemma_bit_differs(cur, prev, k);
        if i < n - 1 && (cur >> i) & 1 != (prev >> i) & 1 {
            let j = choose|j: int|
                0 <= j < before.len() && before[j] == (EmuEvent {
                    kind: EVT_GPIO,
                    a: i,
                    b: (cur >> i) & 1,
                });
            assert(e[j] == before[j]);
        } else if i == n - 1 && (cur >> i) & 1 != (prev >> i) & 1 {
            assert(e[before.len() as int] == (EmuEvent {
                kind: EVT_GPIO,
                a: i,
                b: (cur >> i) & 1,
            }));
        }
    }
}

/// Bit `i` of the output mask is set exactly if pad `i` drives and drives high. Of a
/// pad that is given no matrix signal that is its bit of the output word.
pub proof fn law_output_mask_shows_driven_pads(s: SocState, i: u32)
    requires
        i < 32,
        forall|k: int| 0 <= k < 32 ==> #[trigger] s.pad_driven(k) <= 1,
    ensures
        (s.outputs() >> i) & 1 == if (s.pads.enable >> i as u64) & 1 == 1 {
            s.pad_driven(i as int)
        } else {
            0
        },
        s.pads.wf() && s.pads.out_sel[i as int] == 0x100 ==> s.pad_driven(i as int) == ((s.pads.out
            >> i as u64) & 1) as u32,
{
    lemma_outputs(s, i, 32);
}

proof fn lemma_outputs(s: SocState, i: u32, n: nat)
    requires
        i < 32,
        n <= 32,
        forall|k: int| 0 <= k < 32 ==> #[trigger] s.pad_driven(k) <= 1,
    ensures
        (s.outputs_upto(n) >> i) & 1 == if i < n && (s.pads.enable >> i as u64) & 1 == 1 {
            s.pad_driven(i as int)
        } else {
            0
        },
    decreases n,
{
    crate::bits::lemma_set_bit(0, 0, i);
    if n > 0 {
        lemma_outputs(s, i, (n - 1) as nat);
        let v = s.outputs_upto((n - 1) as nat);
        crate::bits::lemma_or_level(v, s.pad_driven(n - 1), (n - 1) as u32, i);
    }
}

} // verus!
