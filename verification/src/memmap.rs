//! Address map of the chip.

use vstd::prelude::*;

verus! {

/// Internal SRAM on the data bus: one 512 KB store.
pub const DRAM_BASE: u32 = 0x3FC8_0000;

pub const DRAM_SIZE: u32 = 0x8_0000;

/// Instruction-bus window over the internal RAM: 32 KB of instruction-only
/// cells first, then an alias of the data-bus store.
pub const IRAM_BASE: u32 = 0x4037_0000;

pub const IRAM_WINDOW_SIZE: u32 = 0x7_0000;

pub const SRAM0_SIZE: u32 = 0x8000;

pub const DIRAM_INST_BASE: u32 = 0x4037_8000;

pub const DIRAM_DATA_BASE: u32 = 0x3FC8_8000;

/// Cached and uncached aliases of the data-bus SRAM.
pub const CACHED_IOBLOCK_BASE: u32 = 0x7000_0000;

pub const BYPASS_IOBLOCK_BASE: u32 = 0x9000_0000;

/// Boot ROM code and constant tables.
pub const IROM_BASE: u32 = 0x4000_0000;

pub const IROM_SIZE: u32 = 0x6_0000;

pub const ROM_DATA_BASE: u32 = 0x3FF0_0000;

pub const ROM_DATA_SIZE: u32 = 0x2_0000;

/// Cache windows: both are indexed by the low 25 address bits into one page
/// table of 64 KB pages.
pub const FLASH_DATA_BASE: u32 = 0x3C00_0000;

pub const FLASH_INST_BASE: u32 = 0x4200_0000;

pub const FLASH_WINDOW_SIZE: u32 = 0x0200_0000;

pub const WINDOW_MASK: u32 = 0x01FF_FFFF;

pub const CACHE_PAGE_SIZE: u32 = 0x1_0000;

/// Page-table entries, and the entry bits.
pub const MMU_ENTRIES: u32 = 512;

pub const MMU_PAGE_MASK: u32 = 0x3FFF;

pub const MMU_INVALID: u32 = 0x4000;

pub const MMU_PSRAM: u32 = 0x8000;

/// Memories behind the cache windows.
pub const FLASH_SIZE: u32 = 0x40_0000;

pub const PSRAM_SIZE: u32 = 0x80_0000;

/// Window offset at which the ROM loader sees the application image.
pub const LOADER_SCRATCH_OFF: u32 = 0x0100_0000;

/// Scratch area for host event payloads, past the end of the firmware heap.
pub const WIFI_SCRATCH: u32 = 0x3FCE_D710;

/// Host event blocks: four 192-byte slots in a store of their own.
pub const WIFI_ARD_POOL: u32 = 0x3FCF_D710;

pub const WIFI_ARD_POOL_SIZE: u32 = 768;

/// Cells of the second console output hook; stores to them are dropped.
pub const PUTC2_CELL: u32 = 0x3FCE_F748;

pub const PUTC2_CELL_ALT: u32 = 0x3FCE_F750;

/// Peripheral registers.
pub const APB_BASE: u32 = 0x6000_0000;

pub const APB_SIZE: u32 = 0x10_0000;

pub const UART0_BASE: u32 = 0x6000_0000;

pub const GPIO_BASE: u32 = 0x6000_4000;

pub const RTC_PAGE_BASE: u32 = 0x6000_8000;

pub const SENS2_BASE: u32 = 0x6000_E000;

pub const UART1_BASE: u32 = 0x6001_0000;

pub const TIMG0_BASE: u32 = 0x6001_F000;

pub const TIMG1_BASE: u32 = 0x6002_0000;

pub const SYSTIMER_BASE: u32 = 0x6002_3000;

pub const SPI2_BASE: u32 = 0x6002_4000;

pub const SPI3_BASE: u32 = 0x6002_5000;

pub const SYSCON_BASE: u32 = 0x6002_6000;

pub const PERI_BACKUP_BASE: u32 = 0x6002_A000;

pub const UART2_BASE: u32 = 0x6002_E000;

pub const USB_SERIAL_JTAG_BASE: u32 = 0x6003_8000;

pub const USB_WRAP_BASE: u32 = 0x6003_9000;

pub const SYSTEM_BASE: u32 = 0x600C_0000;

pub const SENSITIVE_BASE: u32 = 0x600C_1000;

pub const MMU_TABLE_BASE: u32 = 0x600C_5000;

pub const ASSIST_DEBUG_BASE: u32 = 0x600C_E000;

pub const WCL_BASE: u32 = 0x600D_0000;

/// RTC slow memory: code and data of the ULP coprocessor.
pub const RTC_SLOW_BASE: u32 = 0x5000_0000;

pub const RTC_SLOW_SIZE: u32 = 0x2000;

/// RTC fast memory.
pub const RTC_FAST_BASE: u32 = 0x600F_E000;

pub const RTC_FAST_SIZE: u32 = 0x2000;

/// WiFi radio pages.
pub const FE2_BASE: u32 = 0x6000_5000;

pub const FE_BASE: u32 = 0x6000_6000;

pub const WIFI_MAC_BASE: u32 = 0x6001_C000;

pub const NRX_BASE: u32 = 0x6001_CC00;

pub const BB_BASE: u32 = 0x6001_D000;

pub const WIFI_MAC_CTRL_BASE: u32 = 0x6003_3000;

pub const WDEV_BASE: u32 = 0x6003_5000;

} // verus!
