use esp32s3_soc::uhci::{
    Uhci, CONF_CLK_EN, CONF_UART1_CE, INT_CLR_OFF, INT_ENA_OFF, INT_RAW_OFF, INT_RX_HUNG,
    INT_ST_OFF, INT_TX_START,
};

#[test]
fn conf_round_trip_and_uart_select() {
    let mut u = Uhci::new();
    assert_eq!(u.uart_sel(), None);
    assert!(!u.clk_on());
    u.write32(0x00, CONF_CLK_EN | CONF_UART1_CE);
    assert_eq!(
        u.read32(0x00) & (CONF_CLK_EN | CONF_UART1_CE),
        CONF_CLK_EN | CONF_UART1_CE
    );
    assert_eq!(u.uart_sel(), Some(1));
    assert!(u.clk_on());
    assert!(!u.int_st(), "quiet before any transfer");
}

#[test]
fn int_latch_enable_and_clear() {
    let mut u = Uhci::new();
    u.latch_tx_start();
    assert!(!u.int_st(), "masked while ENA is clear");
    u.write32(INT_ENA_OFF, INT_TX_START);
    assert!(u.int_st(), "level asserts");
    u.write32(INT_CLR_OFF, INT_TX_START);
    assert!(!u.int_st(), "W1C clears");
    assert_eq!(u.read32(INT_RAW_OFF), 0);
}

fn seper_dev() -> Uhci {
    let mut u = Uhci::new();
    u.write32(0x00, CONF_CLK_EN | (1 << 5)); // CLK_EN + SEPER_EN
    u
}

#[test]
fn raw_mode_passes_through() {
    let u = Uhci::new();
    let data = [0xC0u8, 0xDB, 0x41];
    assert_eq!(u.slip_encode(&data), Vec::from(data));
    let mut u = u;
    assert_eq!(u.slip_decode(&data), Vec::from(data));
}

#[test]
fn seper_frames_and_escapes() {
    let u = seper_dev();
    // 0x41 plain, 0xC0 -> DB DC, 0xDB -> DB DD, wrapped in C0..C0.
    assert_eq!(
        u.slip_encode(&[0x41, 0xC0, 0xDB, 0x42]),
        Vec::from([0xC0, 0x41, 0xDB, 0xDC, 0xDB, 0xDD, 0x42, 0xC0])
    );
}

#[test]
fn deframer_strips_and_reassembles_across_chunks() {
    let mut u = seper_dev();
    // Split escape pair across chunks: [C0 41 DB] + [DC 42 C0].
    assert_eq!(u.slip_decode(&[0xC0, 0x41, 0xDB]), Vec::from([0x41]));
    assert_eq!(u.slip_decode(&[0xDC, 0x42, 0xC0]), Vec::from([0xC0, 0x42]));
}

#[test]
fn custom_escape_chars_apply() {
    let mut u = Uhci::new();
    // SEPER=0x7E, ESC0=0x7D, ESC1=0x5D.
    u.write32(0x24, (0x5D << 16) | (0x7D << 8) | 0x7E);
    u.write32(0x00, CONF_CLK_EN | (1 << 5));
    assert_eq!(
        u.slip_encode(&[0x7E, 0x41]),
        Vec::from([0x7E, 0x7D, 0x5D, 0x41, 0x7E])
    );
}

#[test]
fn rx_hung_raises_after_idle_threshold_with_start_latched() {
    let mut u = Uhci::new();
    u.write32(0x00, CONF_CLK_EN | CONF_UART1_CE);
    // No START latched: idle ticks never raise.
    for _ in 0..2048 {
        u.tick_rx_idle(true);
    }
    assert_eq!(u.read32(INT_RAW_OFF) & INT_RX_HUNG, 0);
    // Latch RX_START with a dry receiver: raises at 1024 idle ticks.
    u.latch_rx_start();
    for _ in 0..1023 {
        u.tick_rx_idle(true);
    }
    assert_eq!(u.read32(INT_RAW_OFF) & INT_RX_HUNG, 0, "not yet");
    u.tick_rx_idle(true);
    assert_ne!(u.read32(INT_RAW_OFF) & INT_RX_HUNG, 0, "hung raised");
    assert_eq!(
        u.read32(INT_ST_OFF) & INT_RX_HUNG,
        0,
        "masked until enabled"
    );
    u.write32(INT_ENA_OFF, INT_RX_HUNG);
    assert_ne!(u.read32(INT_ST_OFF) & INT_RX_HUNG, 0, "ST asserts");
    // Data arrival resets the watchdog.
    u.write32(INT_CLR_OFF, INT_RX_HUNG);
    u.tick_rx_idle(false);
    for _ in 0..2048 {
        u.tick_rx_idle(true);
    }
    // START still latched from before, so it raises again (documented:
    // the count resets but the latch persists until CLR).
    assert_ne!(u.read32(INT_RAW_OFF) & INT_RX_HUNG, 0);
}
