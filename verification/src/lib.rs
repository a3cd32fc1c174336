//! Verified models of the ESP32-S3 on-chip peripherals.
//!
//! Each block is a register-level model: an executable type with `read32`,
//! `write32` and, where it keeps time, `tick`, beside a mathematical state whose
//! transitions say what these do. [`soc::Soc`] puts the blocks behind one bus,
//! with the memories, the clock gates, the interrupt sources, the DMA walks and
//! the host side of a network run.
//!
//! What a model promises as a whole is stated in the proof functions named
//! `law_*` of its module.

pub mod bits;
pub mod block_cache;
pub mod bytes;
pub mod flashenc;
pub mod memmap;
pub mod memory;
pub mod pads;
pub mod pll;
pub mod regstore;
pub mod scan_fixture;
pub mod sdspi;
pub mod serial_laws;
pub mod soc;
pub mod spi;
pub mod systimer;
pub mod timer_laws;
pub mod timg;
pub mod touch;
pub mod twai;
pub mod uart;
pub mod uhci;
pub mod ulp;
pub mod ulp_isa;
pub mod usb_enum;
pub mod usb_otg;
pub mod usb_serial_jtag;
pub mod wifi;
pub mod wifi_host;
