use esp32s3_soc::memmap::{
    CACHED_IOBLOCK_BASE, DRAM_BASE, FLASH_DATA_BASE, GPIO_BASE, MMU_TABLE_BASE, RTC_SLOW_BASE,
    SENS2_BASE, SPI2_BASE, SYSCON_BASE, SYSTEM_BASE, SYSTIMER_BASE, TIMG0_BASE, UART0_BASE,
    WIFI_ARD_POOL,
};
use esp32s3_soc::soc::irq::{
    SleepEntry, CAUSE_EXT0, CAUSE_EXT1, CAUSE_TIMER, CAUSE_TOUCH, CAUSE_UART0,
};
use esp32s3_soc::soc::{
    Soc, CAL_DONE, CLK_EN0_RESET, CLK_EN1_RESET, EVT_GPIO, EVT_SPI_XFER, GPIO_IN,
};
use esp32s3_soc::spi::{
    CLK_GATE_CLK_EN, CLOCK_EQU_SYSCLK, CMD_USR, SPI_CLK_GATE, SPI_CLOCK, SPI_CMD, SPI_DATA_BUF,
    SPI_MS_DLEN, SPI_USER, USER_USR_MOSI,
};
use esp32s3_soc::timg::{CFG_EN, CFG_INCREASE, T0CONFIG, T0LO, T0UPDATE};
use esp32s3_soc::twai::TWAI_BASE;
use esp32s3_soc::uart::{
    CONF0_TX_FLOW_EN, INT_RXFIFO_FULL, UART_CONF0, UART_CONF1, UART_FIFO, UART_INT_ENA,
};

const CLK_EN0: u32 = SYSTEM_BASE + 0x18;

#[test]
fn bus_widths_agree() {
    let mut s = Soc::new();
    s.write32(DRAM_BASE + 0x100, 0xA1B2_C3D4);
    assert_eq!(s.read8(DRAM_BASE + 0x101), 0xC3);
    assert_eq!(s.read16(DRAM_BASE + 0x102), 0xA1B2);
    s.write16(DRAM_BASE + 0x100, 0x1111);
    s.write8(DRAM_BASE + 0x103, 0x22);
    assert_eq!(s.read32(DRAM_BASE + 0x100), 0x22B2_1111);
}

#[test]
fn ioblock_alias_reaches_the_same_cells() {
    let mut s = Soc::new();
    s.write32(DRAM_BASE + 0x40, 0x0102_0304);
    assert_eq!(s.read32(CACHED_IOBLOCK_BASE + 0x40), 0x0102_0304);
    s.write16(CACHED_IOBLOCK_BASE + 0x42, 0xBEEF);
    assert_eq!(s.read32(DRAM_BASE + 0x40), 0xBEEF_0304);
}

#[test]
fn event_block_pool_is_a_store_of_its_own() {
    let mut s = Soc::new();
    s.write32(WIFI_ARD_POOL, 0x5555_AAAA);
    assert_eq!(s.read32(WIFI_ARD_POOL), 0x5555_AAAA);
    assert_eq!(s.read8(WIFI_ARD_POOL + 3), 0x55);
    assert_eq!(s.read16(WIFI_ARD_POOL), 0xAAAA);
    // The SRAM behind it keeps its own contents.
    assert_eq!(s.read_dram(WIFI_ARD_POOL), 0);
}

#[test]
fn compare_and_swap_on_a_ram_word() {
    let mut s = Soc::new();
    s.write32(DRAM_BASE, 7);
    assert_eq!(s.cas32(DRAM_BASE, 6, 9), 7);
    assert_eq!(s.read32(DRAM_BASE), 7);
    assert_eq!(s.cas32(DRAM_BASE, 7, 9), 7);
    assert_eq!(s.read32(DRAM_BASE), 9);
}

#[test]
fn unanswered_space_reads_zero() {
    let mut s = Soc::new();
    s.write32(0x6000_F000, 0xFFFF_FFFF);
    assert_eq!(s.read32(0x6000_F000), 0);
    assert_eq!(s.read32(0x2000_0000), 0);
}

#[test]
fn system_registers_at_power_on() {
    let mut s = Soc::new();
    assert_eq!(s.read32(SYSTEM_BASE + 0x18), CLK_EN0_RESET);
    assert_eq!(s.read32(SYSTEM_BASE + 0x1C), CLK_EN1_RESET);
    assert_eq!(s.read32(SENS2_BASE + 0x50), CAL_DONE);
    s.write32(SYSCON_BASE + 0x20, 0x77);
    assert_eq!(s.read32(SYSCON_BASE + 0x20), 0x77);
    s.write32(MMU_TABLE_BASE + 8, 3);
    assert_eq!(s.read32(MMU_TABLE_BASE + 8), 3);
}

#[test]
fn gated_timer_stands_still() {
    let mut s = Soc::default();
    s.write32(TIMG0_BASE + T0CONFIG, CFG_EN | CFG_INCREASE | (2 << 13));
    s.tick_timers(20);
    s.write32(TIMG0_BASE + T0UPDATE, 1);
    assert_eq!(s.read32(TIMG0_BASE + T0LO), 10);
    s.write32(CLK_EN0, CLK_EN0_RESET & !(1 << 13));
    s.tick_timers(20);
    s.write32(CLK_EN0, CLK_EN0_RESET);
    s.write32(TIMG0_BASE + T0UPDATE, 1);
    assert_eq!(s.read32(TIMG0_BASE + T0LO), 10);
}

fn spi_transfer(s: &mut Soc) {
    s.write32(SPI2_BASE + SPI_CLK_GATE, CLK_GATE_CLK_EN);
    s.write32(SPI2_BASE + SPI_CLOCK, CLOCK_EQU_SYSCLK);
    s.write32(SPI2_BASE + SPI_USER, USER_USR_MOSI);
    s.write32(SPI2_BASE + SPI_MS_DLEN, 23);
    s.write32(SPI2_BASE + SPI_DATA_BUF, 0x0033_2211);
    s.write32(SPI2_BASE + SPI_CMD, CMD_USR);
    s.tick_timers(24);
}

#[test]
fn finished_spi_transfer_is_reported() {
    let mut s = Soc::new();
    spi_transfer(&mut s);
    let events = s.drain_events();
    assert_eq!(events.len(), 1);
    assert_eq!((events[0].kind, events[0].a, events[0].b), (EVT_SPI_XFER, 0, 3));
    assert!(s.drain_events().is_empty());
    assert_eq!(s.spi_take_tx(0), vec![0x11, 0x22, 0x33]);
}

#[test]
fn gated_spi_starts_no_transfer() {
    let mut s = Soc::new();
    s.write32(CLK_EN0, CLK_EN0_RESET & !(1 << 6));
    spi_transfer(&mut s);
    s.write32(CLK_EN0, CLK_EN0_RESET);
    s.tick_timers(100);
    assert!(s.drain_events().is_empty());
}

#[test]
fn pad_levels_are_read_back() {
    let mut s = Soc::new();
    s.pads_mut().set_raw_in(0b1010);
    assert_eq!(s.read32(GPIO_BASE + GPIO_IN), 0b1010);
    s.pads_mut().set_outputs(0b0100, 0b1100);
    assert_eq!(s.read32(GPIO_BASE + GPIO_IN), 0b0110);
    assert_eq!(s.gpio_output(), 0b0100);
    let events = s.drain_events();
    assert_eq!(events.len(), 1);
    assert_eq!((events[0].kind, events[0].a, events[0].b), (EVT_GPIO, 2, 1));
}

#[test]
fn matrix_signal_drives_a_pad_and_readback_holds() {
    let mut s = Soc::new();
    s.pads_mut().set_outputs(0, 1 << 5);
    s.pads_mut().set_out_sel(5, 200);
    assert_eq!(s.gpio_in_readback(), 0);
    s.set_signal(200, 3);
    assert_eq!(s.gpio_in_readback(), 0);
    s.tick_timers(1);
    assert_eq!(s.gpio_in_readback(), 1 << 5);
    assert_eq!(s.gpio_output(), 1 << 5);
}

#[test]
fn camera_levels_show_on_routed_pads() {
    let mut s = Soc::new();
    s.pads_mut().set_raw_in(0xFF);
    s.pads_mut().set_in_sel(149, Some((3, false)));
    s.pads_mut().set_in_sel(150, Some((9, true)));
    assert_eq!(s.gpio_in_readback_with_cam(None), 0xFF);
    assert_eq!(s.gpio_in_readback_with_cam(Some([0, 0, 0, 0])), 0x2F7);
    assert_eq!(Soc::cam_inject_frame(&[1, 2, 3, 4, 5]), vec![0x0403_0201, 5]);
}

#[test]
fn dedicated_inputs_follow_their_pads() {
    let mut s = Soc::new();
    s.pads_mut().set_in_sel(129, Some((0, false)));
    s.pads_mut().set_in_sel(54, Some((1, false)));
    s.pads_mut().set_raw_in(0b11);
    assert_eq!(s.dedic_gpio_in(), 0b1000_0001);
}

#[test]
fn interrupt_sources_are_scanned_anew_after_a_change() {
    let mut s = Soc::new();
    assert_eq!(s.int_sources(0), 0);
    s.write32(UART0_BASE + UART_CONF1, 1);
    s.write32(UART0_BASE + UART_INT_ENA, INT_RXFIFO_FULL);
    s.uart_inject_rx(0, b'x');
    assert_eq!(s.int_sources(0), 1u128 << 27);
    assert_eq!(s.int_sources(1), 1u128 << 27);
    // A register write shows at once, before the next tick.
    s.write32(UART0_BASE + UART_INT_ENA, 0);
    assert_eq!(s.int_sources(0), 0);
    s.write32(UART0_BASE + UART_INT_ENA, INT_RXFIFO_FULL);
    s.tick_timers(1);
    assert_eq!(s.int_sources(0), 1u128 << 27);
    // Outside blocks cannot raise the sources of the blocks here.
    s.set_outside_sources((1u128 << 90) | (1u128 << 28) | (1u128 << 80));
    assert_eq!(s.int_sources(1), (1u128 << 27) | (1u128 << 90));
}

#[test]
fn cross_core_request_reaches_one_core() {
    let mut s = Soc::new();
    s.write32(SYSTEM_BASE + 0x34, 1);
    assert_eq!(s.int_sources(0), 0);
    assert_eq!(s.int_sources(1), 1u128 << 80);
    s.write32(SYSTEM_BASE + 0x34, 0);
    assert_eq!(s.int_sources(1), 0);
}

#[test]
fn uart_waits_for_its_routed_clear_to_send() {
    let mut s = Soc::new();
    s.write32(UART0_BASE + UART_CONF0, CONF0_TX_FLOW_EN);
    s.tick_timers(1);
    s.write32(UART0_BASE + UART_FIFO, 0x41);
    s.tick_timers(1);
    assert!(!s.uart_tx_pending(0));
    s.pads_mut().set_in_sel(13, Some((4, false)));
    s.tick_timers(1);
    assert_eq!(s.uart_tx_len(0), 1);
    assert_eq!(s.take_uart_tx(0), b"A".to_vec());
}

fn entry() -> SleepEntry {
    SleepEntry {
        target: 1000,
        deep: false,
        ena: 0,
        timer_written: false,
        ext0_pad: 0,
        ext0_level: 0,
        ext1_level: 0,
        ext1_mask: 0,
        pin_cfg: [0; 22],
    }
}

#[test]
fn timed_sleep_runs_its_time() {
    let mut s = Soc::new();
    let (ticks, deep) = s.consume_sleep_request(SleepEntry { ena: CAUSE_TIMER, deep: true, ..entry() });
    assert_eq!((ticks, deep), (1000, true));
    assert_eq!(s.take_sleep_cause(), CAUSE_TIMER);
    assert_eq!(s.take_sleep_cause(), 0);
}

#[test]
fn sleep_without_sources_waits_for_an_event() {
    let mut s = Soc::new();
    assert_eq!(s.consume_sleep_request(entry()), (u64::MAX, false));
    assert_eq!(s.take_sleep_cause(), 0);
    assert!(!s.sleep_ulp_fired());
}

#[test]
fn pads_wake_at_once() {
    let mut s = Soc::new();
    s.pads_mut().set_raw_in(0b100);
    let e = SleepEntry { ena: CAUSE_EXT0, ext0_pad: 2, ext0_level: 1, ..entry() };
    assert_eq!(s.consume_sleep_request(e).0, 1);
    assert_eq!(s.take_sleep_cause(), CAUSE_EXT0);
    let e = SleepEntry { ena: CAUSE_EXT1, ext1_mask: 0b110, ext1_level: 1, ..entry() };
    assert_eq!(s.consume_sleep_request(e).0, 1);
    assert_eq!(s.take_sleep_cause(), CAUSE_EXT1);
    assert_eq!(s.take_sleep_ext1(), 0b100);
    // All-low: one watched pad is high.
    let e = SleepEntry { ena: CAUSE_EXT1, ext1_mask: 0b110, ext1_level: 0, ..entry() };
    assert_eq!(s.consume_sleep_request(e).0, u64::MAX);
}

#[test]
fn serial_and_touch_wake() {
    let mut s = Soc::new();
    s.uart_inject_rx(0, 1);
    let e = SleepEntry { ena: CAUSE_UART0 | CAUSE_TOUCH, ..entry() };
    assert_eq!(s.consume_sleep_request(e).0, 1);
    assert_eq!(s.take_sleep_cause(), CAUSE_UART0);
}

#[test]
fn rtc_memories_survive_deep_sleep() {
    let mut s = Soc::new();
    s.write32(RTC_SLOW_BASE + 0x10, 0x600D_CAFE);
    s.write32(DRAM_BASE, 1);
    let snap = s.snapshot_rtc();
    let mut t = Soc::new();
    t.restore_rtc(snap);
    assert_eq!(t.read32(RTC_SLOW_BASE + 0x10), 0x600D_CAFE);
    assert_eq!(t.read32(DRAM_BASE), 0);
}

#[test]
fn held_pads_keep_their_level() {
    let mut s = Soc::new();
    s.pads_mut().set_outputs(0b11, 0b11);
    let hold = s.snapshot_gpio_hold(0b10);
    let mut t = Soc::new();
    t.restore_gpio_hold(hold);
    assert_eq!(t.gpio_in_readback(), 0b10);
    assert_eq!(t.gpio_output(), 0b10);
}

#[test]
fn psram_survives_a_restore() {
    let mut s = Soc::new();
    let mut snap = s.psram_snapshot();
    snap[5] = 0x5C;
    s.restore_psram(snap);
    assert_eq!(s.psram_snapshot()[5], 0x5C);
    s.psram_wipe();
    assert_eq!(s.psram_snapshot()[5], 0);
}

#[test]
fn encrypted_flash_is_shown_decrypted() {
    let mut s = Soc::new();
    s.load_flash_image(0x20, &[0x77; 32]);
    s.flashenc_encrypt_region(0x20, 32, &[0xE0; 32]);
    assert!(!s.flash_enc_enabled());
    assert_eq!(s.flash_image()[0x20], 0x77);
    let view = vec![0xAB; 0x40_0000];
    let key = [0x5A; 32];
    let (words, cnt) = s.flashenc_provision(&key, 0, &view);
    assert_eq!(words, [0x5A5A_5A5A; 8]);
    assert_eq!(cnt, 1);
    assert!(s.flash_enc_enabled());
    assert_eq!(s.read8(FLASH_DATA_BASE + 0x20), 0xAB);
    // One whole block fits the region.
    s.flashenc_encrypt_region(0x20, 31, &[0xE0; 32]);
    assert_eq!(s.flash_image()[0x2F], 0xE0);
    assert_eq!(s.flash_image()[0x30], 0x77);
    assert_eq!(s.read8(FLASH_DATA_BASE + 0x2F), 0x77);
    assert_eq!(s.read8(FLASH_DATA_BASE + 0x30), 0xAB);
    assert_eq!(s.flash_image_decrypted()[0x20], 0x77);
    // New contents come with what they decrypt to.
    let mut fresh = s.flash_image_decrypted();
    fresh[0x100] = 0x5E;
    s.load_encrypted_image(0x100, &[0xC7; 16], &fresh);
    assert_eq!(s.flash_image()[0x100], 0xC7);
    assert_eq!(s.read8(FLASH_DATA_BASE + 0x100), 0x5E);
    // A second burned bit turns encryption off again.
    s.refresh_flashenc_mirror(0b11, &view);
    assert!(!s.flash_enc_enabled());
    assert_eq!(s.read8(FLASH_DATA_BASE + 0x2F), 0xE0);
    assert_eq!(s.flash_image_decrypted(), s.flash_image().to_vec());
}

#[test]
fn frontends_reach_their_blocks() {
    let mut s = Soc::new();
    s.usb_inject_rx(b'u');
    assert!(!s.usb_tx_pending());
    assert_eq!(s.usb_tx_len(), 0);
    s.uart_push_tx(2, b"hi");
    assert_eq!(s.take_uart_tx(2), b"hi".to_vec());
    s.write32(TWAI_BASE, 0);
    s.twai_inject_rx([3; 13]);
    assert_eq!(s.read32(TWAI_BASE + 0x74), 1);
    s.load_flash_image(4, &[9]);
    assert_eq!(s.flash_image()[4], 9);
    s.irom_mut()[0] = 0x11;
    assert_eq!(s.read8(0x4000_0000), 0x11);
    s.write32(DRAM_BASE + 8, 0xABCD);
    assert_eq!(s.read_dram(DRAM_BASE + 8), 0xABCD);
    assert_eq!(s.fast_len_for(0, 0x4200_0000, &[false, true]), Some(2));
    assert!(!s.consume_reset());
    s.spi_sdspi_attach(1, 2);
    assert_eq!(s.spi_quad_mode(1), 0);
}

#[test]
fn systimer_registers_are_on_the_bus() {
    let mut s = Soc::new();
    assert_eq!(s.read32(SYSTIMER_BASE + 0xFC), esp32s3_soc::systimer::DATE_VALUE);
}
