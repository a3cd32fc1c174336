use esp32s3_soc::memmap::{
    BYPASS_IOBLOCK_BASE, CACHED_IOBLOCK_BASE, DIRAM_DATA_BASE, DIRAM_INST_BASE, DRAM_BASE,
    FLASH_DATA_BASE, FLASH_INST_BASE, IRAM_BASE, IROM_BASE, LOADER_SCRATCH_OFF, MMU_INVALID,
    MMU_PSRAM, PUTC2_CELL, RTC_SLOW_BASE, WIFI_ARD_POOL,
};
use esp32s3_soc::memory::{ioblock_remap, locate, Memory, Place};

#[test]
fn addresses_are_located() {
    assert_eq!(ioblock_remap(CACHED_IOBLOCK_BASE + 0x10), DRAM_BASE + 0x10);
    assert_eq!(ioblock_remap(BYPASS_IOBLOCK_BASE + 0x10), DRAM_BASE + 0x10);
    assert_eq!(ioblock_remap(DRAM_BASE), DRAM_BASE);
    assert!(locate(DRAM_BASE + 4) == Place::Sram(4));
    assert!(locate(IRAM_BASE + 4) == Place::Iram0(4));
    assert!(locate(DIRAM_INST_BASE + 4) == Place::Sram(0x8004));
    assert!(locate(WIFI_ARD_POOL + 8) == Place::Pool(8));
    assert!(locate(FLASH_INST_BASE + 8) == Place::Window(8));
    assert!(locate(FLASH_DATA_BASE + 8) == Place::Window(8));
    assert!(locate(0x1000_0000) == Place::Nowhere);
}

#[test]
fn words_are_little_endian_and_aliased() {
    let mut m = Memory::new();
    m.write32(DIRAM_DATA_BASE + 0x20, 0x1122_3344);
    assert_eq!(m.read8(DIRAM_DATA_BASE + 0x20), 0x44);
    assert_eq!(m.read8(DIRAM_DATA_BASE + 0x23), 0x11);
    assert_eq!(m.read32(DIRAM_INST_BASE + 0x20), 0x1122_3344);
    m.write8(DIRAM_INST_BASE + 0x21, 0x99);
    assert_eq!(m.read32(DIRAM_DATA_BASE + 0x20), 0x1122_9944);
}

#[test]
fn read_only_space_ignores_stores() {
    let mut m = Memory::new();
    m.irom_mut()[4] = 0x7E;
    m.write8(IROM_BASE + 4, 1);
    assert_eq!(m.read8(IROM_BASE + 4), 0x7E);
    m.load_flash_image(0x10, &[0x5A]);
    m.write8(FLASH_DATA_BASE + 0x10, 1);
    assert_eq!(m.read8(FLASH_DATA_BASE + 0x10), 0x5A);
    m.write32(0x1000_0000, 0xFFFF_FFFF);
    assert_eq!(m.read32(0x1000_0000), 0);
}

#[test]
fn console_hook_cells_drop_stores() {
    let mut m = Memory::new();
    m.write32(PUTC2_CELL, 0xDEAD_BEEF);
    assert_eq!(m.read32(PUTC2_CELL), 0);
    m.poke32(PUTC2_CELL, 0xDEAD_BEEF);
    assert_eq!(m.read32(PUTC2_CELL), 0xDEAD_BEEF);
}

#[test]
fn page_table_maps_flash_and_psram() {
    let mut m = Memory::new();
    m.load_flash_image(0x2_0004, &[0xC1]);
    assert_eq!(m.mmu_read32(0), MMU_INVALID);
    assert_eq!(m.read8(FLASH_DATA_BASE + 0x4), 0);
    m.mmu_write32(0, 2);
    assert_eq!(m.read8(FLASH_DATA_BASE + 0x4), 0xC1);
    assert_eq!(m.read8(FLASH_INST_BASE + 0x4), 0xC1);
    m.mmu_write32(4, MMU_PSRAM | 3);
    m.write8(FLASH_DATA_BASE + 0x1_0007, 0x3D);
    assert_eq!(m.psram_snapshot()[0x3_0007], 0x3D);
    m.psram_wipe();
    assert_eq!(m.read8(FLASH_DATA_BASE + 0x1_0007), 0);
}

/// An image at flash offset 0x10000 with a window segment and an RTC segment.
fn image() -> Vec<u8> {
    let mut img = vec![0u8; 0x1_0000];
    img.extend_from_slice(&[0xE9, 2]);
    img.resize(0x1_0018, 0);
    img.extend_from_slice(&(FLASH_DATA_BASE + 0x20).to_le_bytes());
    img.extend_from_slice(&8u32.to_le_bytes());
    img.extend_from_slice(b"RODATA!!");
    img.extend_from_slice(&(RTC_SLOW_BASE + 4).to_le_bytes());
    img.extend_from_slice(&4u32.to_le_bytes());
    img.extend_from_slice(&[1, 2, 3, 4]);
    img
}

#[test]
fn application_segments_are_mapped() {
    let img = image();
    let mut m = Memory::new();
    m.load_flash_image(0, &img);
    m.map_app_flash_segments(&img, 0x1_0000);
    assert_eq!(m.mmu_read32(0), 1);
    assert_eq!(m.read8(FLASH_DATA_BASE + 0x20), b'R');
    assert_eq!(m.read32(RTC_SLOW_BASE + 4), 0x0403_0201);
    assert_eq!(m.read8(FLASH_DATA_BASE + LOADER_SCRATCH_OFF), 0xE9);
}

#[test]
fn image_without_magic_is_left_alone() {
    let mut img = image();
    img[0x1_0000] = 0;
    let mut m = Memory::new();
    m.map_app_flash_segments(&img, 0x1_0000);
    assert_eq!(m.mmu_read32(0), MMU_INVALID);
    m.map_app_flash_segments(&img, 0xFFFF_FFFF);
    assert_eq!(m.mmu_read32(0), MMU_INVALID);
}

#[test]
fn boot_rom_sees_raw_flash() {
    let mut m = Memory::new();
    m.load_flash_image(0, &[0xAA]);
    m.mmu_write32(0, 5);
    assert_eq!(m.read8(FLASH_DATA_BASE), 0);
    m.set_rom_boot_mode(true);
    assert!(m.rom_boot_mode());
    assert_eq!(m.read8(FLASH_DATA_BASE), 0xAA);
}

#[test]
fn rtc_memories_survive_a_restore() {
    let mut m = Memory::new();
    m.write32(RTC_SLOW_BASE, 0x0BAD_CAFE);
    let (slow, fast) = m.rtc_snapshot();
    let mut n = Memory::new();
    n.restore_rtc(slow, fast);
    assert_eq!(n.read32(RTC_SLOW_BASE), 0x0BAD_CAFE);
}
