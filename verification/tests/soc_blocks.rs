use esp32s3_soc::memmap::{
    RTC_PAGE_BASE, RTC_SLOW_BASE, SENS2_BASE, SPI2_BASE, SYSTEM_BASE, USB_SERIAL_JTAG_BASE,
};
use esp32s3_soc::pll::{PLL_LOCK, PLL_LOCK_CYCLES, PLL_POWER};
use esp32s3_soc::soc::irq::{SleepEntry, CAUSE_ULP};
use esp32s3_soc::soc::{Soc, CLK_EN0_RESET};
use esp32s3_soc::spi::{
    Spi, CLK_GATE_CLK_EN, CLOCK_EQU_SYSCLK, CMD_USR, SPI_CLK_GATE, SPI_CLOCK, SPI_CMD, SPI_MS_DLEN,
    SPI_USER, USER_DOUTDIN, USER_USR_MISO, USER_USR_MOSI,
};
use esp32s3_soc::systimer::{
    Systimer, CONF, INT_CLR, INT_ENA, TARGET_CONF, TARGET_WORK_EN, UNIT0_WORK_EN,
};
use esp32s3_soc::touch::TOUCH_STATUS_BASE;
use esp32s3_soc::uhci::{CONF_CLK_EN, CONF_SEPER_EN, CONF_UART1_CE, UHCI0_BASE};
use esp32s3_soc::ulp::{Ulp, ULP_BASE};
use esp32s3_soc::usb_otg::{UsbOtg, GUSBCFG, GUSBCFG_FORCE_DEVICE};
use esp32s3_soc::usb_serial_jtag::{EP1, EP1_CONF, CONF_WR_DONE};
use esp32s3_soc::wifi::TXDC_DONE_BIT;

const OWNER: u32 = 1 << 31;
const D0: u32 = 0x3FC9_0000;
const BUF: u32 = 0x3FC9_1000;

fn descriptor(s: &mut Soc, len: u32) {
    s.write32(D0, OWNER | (1 << 30) | (len << 12) | len);
    s.write32(D0 + 4, BUF);
    s.write32(D0 + 8, 0);
}

/// A program that stores 0x12345678 to the first shared slot and halts.
const PROG: [u32; 6] = [
    0x6000_80B7,
    0x10C0_8093,
    0x1234_5137,
    0x6781_0113,
    0x0020_A023,
    0x0010_0073,
];

fn with_program() -> Soc {
    let mut s = Soc::new();
    for (i, w) in PROG.iter().enumerate() {
        s.write32(RTC_SLOW_BASE + 4 * i as u32, *w);
    }
    s.write32(ULP_BASE, 1);
    s
}

#[test]
fn coprocessor_runs_one_instruction_per_cycle() {
    let mut s = with_program();
    s.tick_timers(4);
    assert_eq!(s.read32(ULP_BASE + 0x0C), 0);
    s.tick_timers(1);
    assert_eq!(s.read32(ULP_BASE + 0x0C), 0x1234_5678);
    assert_eq!(s.read32(ULP_BASE + 0x08) & 1, 0);
    s.tick_timers(1);
    assert_eq!(s.read32(ULP_BASE + 0x08) & 1, 1);
}

#[test]
fn halting_coprocessor_ends_the_sleep() {
    let mut s = with_program();
    let e = SleepEntry {
        target: 5,
        deep: true,
        ena: CAUSE_ULP,
        timer_written: false,
        ext0_pad: 0,
        ext0_level: 0,
        ext1_level: 0,
        ext1_mask: 0,
        pin_cfg: [0; 22],
    };
    assert_eq!(s.consume_sleep_request(e), (u64::MAX, true));
    assert!(!s.sleep_ulp_fired());
    s.tick_timers(6);
    assert!(s.sleep_ulp_fired());
    assert!(!s.sleep_ulp_fired());
    assert_eq!(s.take_sleep_cause(), CAUSE_ULP);
}

#[test]
fn stalled_coprocessor_stands_still() {
    let mut u = Ulp::new();
    let mut mem = [0u8; 0x2000];
    mem[..4].copy_from_slice(&PROG[0].to_le_bytes());
    u.write32(ULP_BASE, 3);
    assert!(!u.is_running());
    u.step(&mut mem);
    u.write32(ULP_BASE, 1);
    assert!(u.is_running());
}

#[test]
fn framed_bytes_leave_through_the_uart() {
    let mut s = Soc::new();
    s.write32(SYSTEM_BASE + 0x18, CLK_EN0_RESET | (1 << 8));
    s.write32(UHCI0_BASE, CONF_CLK_EN | CONF_UART1_CE | CONF_SEPER_EN);
    s.write32(BUF, 0x0000_C041);
    descriptor(&mut s, 2);
    assert_eq!(s.dma_uhci_out(D0), Some(D0));
    assert_eq!(s.take_uart_tx(1), vec![0xC0, 0x41, 0xDB, 0xDC, 0xC0]);
    assert_eq!(s.read32(D0) & OWNER, 0);
}

#[test]
fn received_bytes_are_stored_in_words() {
    let mut s = Soc::new();
    s.write32(SYSTEM_BASE + 0x18, CLK_EN0_RESET | (1 << 8));
    s.write32(UHCI0_BASE, CONF_CLK_EN | CONF_UART1_CE);
    for b in 1..=6u8 {
        s.uart_inject_rx(1, b);
    }
    descriptor(&mut s, 8);
    assert_eq!(s.dma_uhci_in(D0), 1);
    assert_eq!(s.read32(BUF), 0x0403_0201);
    assert_eq!(s.read32(BUF + 4), 0x0000_0605);
}

#[test]
fn gated_uhci_loses_its_output() {
    let mut s = Soc::new();
    s.write32(UHCI0_BASE, CONF_CLK_EN | CONF_UART1_CE);
    s.write32(BUF, 0x41);
    descriptor(&mut s, 1);
    assert_eq!(s.dma_uhci_out(D0), Some(D0));
    assert_eq!(s.uart_tx_len(1), 0);
}

#[test]
fn spi_input_is_stored_by_its_chain() {
    let mut s = Soc::new();
    s.write32(SPI2_BASE + SPI_CLK_GATE, CLK_GATE_CLK_EN);
    s.write32(SPI2_BASE + SPI_CLOCK, CLOCK_EQU_SYSCLK);
    s.write32(SPI2_BASE + SPI_USER, USER_USR_MOSI | USER_USR_MISO | USER_DOUTDIN);
    s.write32(SPI2_BASE + SPI_MS_DLEN, 31);
    s.spi_inject_miso(0, &[0xD1, 0xD2, 0xD3, 0xD4]);
    descriptor(&mut s, 4);
    assert_eq!(s.dma_spi_out(0, D0), Some(D0));
    s.tick_timers(32);
    descriptor(&mut s, 4);
    assert_eq!(s.dma_spi_in(0, D0), 1);
    assert_eq!(s.read32(BUF), 0xD4D3_D2D1);
}

#[test]
fn spi_lines_show_the_transfer() {
    let mut s = Spi::new(0);
    // Idle: both selects are high.
    assert_eq!(s.signal_level(110), 1);
    assert_eq!(s.signal_level(111), 1);
    assert_eq!(s.signal_level(5), 0);
    s.write32(SPI_CLK_GATE, CLK_GATE_CLK_EN);
    s.write32(SPI_CLOCK, CLOCK_EQU_SYSCLK);
    s.write32(SPI_USER, USER_USR_MOSI);
    s.write32(SPI_MS_DLEN, 7);
    s.write32(0x98, 0b1010_0000);
    s.write32(SPI_CMD, CMD_USR);
    let mut seen: u32 = 0;
    for _ in 0..8 {
        seen = (seen << 1) | s.signal_level(103);
        s.tick(1);
    }
    assert_eq!(seen, 0b1010_0000);
    assert_eq!(s.signal_level(110), 1);
}

#[test]
fn pll_and_calibration_registers() {
    let mut s = Soc::new();
    s.write32(SENS2_BASE + 0x40, PLL_POWER);
    assert_eq!(s.read32(SENS2_BASE + 0x40) & PLL_LOCK, 0);
    s.tick_timers(PLL_LOCK_CYCLES);
    assert_eq!(s.read32(SENS2_BASE + 0x40) & PLL_LOCK, PLL_LOCK);
    s.write32(SENS2_BASE + 0x4C, 0x12);
    assert_eq!(s.read32(SENS2_BASE + 0x4C), 0x12 | TXDC_DONE_BIT);
    assert_eq!(s.read32(SENS2_BASE + 0x4C), 0x12);
}

#[test]
fn usb_console_output_is_taken() {
    let mut s = Soc::new();
    s.write32(USB_SERIAL_JTAG_BASE + EP1, b'o' as u32);
    s.write32(USB_SERIAL_JTAG_BASE + EP1, b'k' as u32);
    s.write32(USB_SERIAL_JTAG_BASE + EP1_CONF, CONF_WR_DONE);
    assert!(s.usb_tx_pending());
    assert_eq!(s.take_usb_serial_tx(), b"ok".to_vec());
    s.usb_inject_rx(b'z');
    assert_eq!(s.read32(USB_SERIAL_JTAG_BASE + EP1), b'z' as u32);
}

#[test]
fn touch_value_is_on_the_bus() {
    let mut s = Soc::new();
    s.touch_inject(1, 321);
    assert_eq!(s.read32(RTC_PAGE_BASE + 0x800 + TOUCH_STATUS_BASE) & 0x3F_FFFF, 321);
}

#[test]
fn enumeration_session_lasts_from_setup_to_reset() {
    let mut u = UsbOtg::new();
    u.usb_host_setup([0x80, 6, 0, 1, 0, 0, 18, 0]);
    assert!(!u.dev_enum_active());
    u.write32(GUSBCFG, GUSBCFG_FORCE_DEVICE);
    u.usb_host_bus_reset();
    u.usb_host_setup([0x80, 6, 0, 1, 0, 0, 18, 0]);
    assert!(u.dev_enum_active());
    u.usb_host_bus_reset();
    assert!(!u.dev_enum_active());
    let mut s = Soc::new();
    s.usb_otg_disconnect();
    assert_eq!(s.usb_host_take_in(), Vec::<u8>::new());
}

#[test]
fn split_ticks_move_the_chip_alike() {
    let mut a = with_program();
    let mut b = with_program();
    a.tick_timers(6);
    b.tick_timers(2);
    b.tick_timers(4);
    assert_eq!(a.read32(ULP_BASE + 0x0C), b.read32(ULP_BASE + 0x0C));
    a.write32(0x6002_3004, 1 << 30);
    b.write32(0x6002_3004, 1 << 30);
    assert_eq!(a.read32(0x6002_3044), b.read32(0x6002_3044));
}

#[test]
fn periodic_alarm_fires_every_period() {
    let mut s = Systimer::new();
    s.write32(CONF, UNIT0_WORK_EN | TARGET_WORK_EN[0]);
    s.write32(INT_ENA, 1);
    s.write32(TARGET_CONF, (1 << 30) | 25);
    // The first period starts with an alarm.
    s.tick(1);
    assert_eq!(s.int_st(), 1);
    s.write32(INT_CLR, 1);
    for _ in 0..3 {
        s.tick(24);
        assert_eq!(s.int_st(), 0);
        s.tick(1);
        assert_eq!(s.int_st(), 1);
        s.write32(INT_CLR, 1);
    }
}
