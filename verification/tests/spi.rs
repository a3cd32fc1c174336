use esp32s3_soc::spi::{
    Spi, CLK_GATE_CLK_EN, CLOCK_EQU_SYSCLK, CMD_USR, DMA_RX_ENA, INT_TRANS_DONE, INT_WR_DMA_DONE,
    SLAVE_MODE, SPI_CLK_GATE, SPI_CLOCK, SPI_CMD, SPI_DATA_BUF, SPI_DMA_CONF, SPI_INT_CLR,
    SPI_INT_ENA, SPI_INT_RAW, SPI_INT_SET, SPI_INT_ST, SPI_MS_DLEN, SPI_SLAVE, SPI_USER,
    USER_DOUTDIN, USER_USR_MISO, USER_USR_MOSI,
};

/// A controller that shifts `bits` data bits out, one per cycle.
fn master(bits: u32) -> Spi {
    let mut s = Spi::new(0);
    s.write32(SPI_CLK_GATE, CLK_GATE_CLK_EN);
    s.write32(SPI_CLOCK, CLOCK_EQU_SYSCLK);
    s.write32(SPI_USER, USER_USR_MOSI | USER_USR_MISO | USER_DOUTDIN);
    s.write32(SPI_MS_DLEN, bits - 1);
    s
}

#[test]
fn transfer_runs_one_clock_per_bit() {
    let mut s = master(16);
    s.write32(SPI_DATA_BUF, 0x0000_3412);
    s.write32(SPI_CMD, CMD_USR);
    assert_ne!(s.read32(SPI_CMD) & CMD_USR, 0);
    s.tick(15);
    assert_ne!(s.read32(SPI_CMD) & CMD_USR, 0);
    s.tick(1);
    assert_eq!(s.read32(SPI_CMD) & CMD_USR, 0);
    assert_ne!(s.read32(SPI_INT_RAW) & INT_TRANS_DONE, 0);
    assert_eq!(s.take_last_tx(), Some(vec![0x12, 0x34]));
    assert_eq!(s.take_last_tx(), None);
}

#[test]
fn clock_divider_stretches_the_transfer() {
    let mut s = master(8);
    // clkdiv_pre = 1, clkcnt_n = 4: ten cycles per bit.
    s.write32(SPI_CLOCK, (1 << 18) | (4 << 12));
    s.write32(SPI_CMD, CMD_USR);
    s.tick(79);
    assert_ne!(s.read32(SPI_CMD) & CMD_USR, 0);
    s.tick(1);
    assert_eq!(s.read32(SPI_CMD) & CMD_USR, 0);
}

#[test]
fn done_latch_clears_at_the_next_start() {
    let mut s = master(8);
    s.write32(SPI_CMD, CMD_USR);
    s.tick(8);
    assert_ne!(s.read32(SPI_INT_RAW) & INT_TRANS_DONE, 0);
    s.write32(SPI_CMD, CMD_USR);
    assert_eq!(s.read32(SPI_INT_RAW) & INT_TRANS_DONE, 0);
}

#[test]
fn spi_interrupt_registers() {
    let mut s = Spi::new(1);
    s.write32(SPI_INT_SET, INT_TRANS_DONE);
    assert_eq!(s.int_st(), 0);
    s.write32(SPI_INT_ENA, INT_TRANS_DONE);
    assert_eq!(s.read32(SPI_INT_ST), INT_TRANS_DONE);
    assert_eq!(s.read32(SPI_INT_CLR), 0);
    s.write32(SPI_INT_CLR, INT_TRANS_DONE);
    assert_eq!(s.int_st(), 0);
}

#[test]
fn injected_input_lands_in_the_buffer() {
    let mut s = master(32);
    s.inject_miso(&[0xA5, 0x5A, 0x01, 0x02]);
    s.write32(SPI_CMD, CMD_USR);
    s.tick(32);
    assert_eq!(s.read32(SPI_DATA_BUF), 0x0201_5AA5);
}

#[test]
fn slave_buffer_round_trip() {
    let mut s = Spi::new(0);
    assert!(!s.is_slave());
    s.slave_inject_write(&[9, 9, 9]);
    assert_eq!(s.slave_take_read(3), Vec::<u8>::new());
    s.write32(SPI_SLAVE, SLAVE_MODE);
    assert!(s.is_slave());
    s.slave_inject_write(&[1, 2, 3, 4, 5]);
    assert_ne!(s.read32(SPI_INT_RAW) & INT_TRANS_DONE, 0);
    assert_eq!(s.slave_take_read(5), vec![1, 2, 3, 4, 5]);
}

#[test]
fn slave_ignores_the_start_bit() {
    let mut s = master(8);
    s.write32(SPI_SLAVE, SLAVE_MODE);
    s.write32(SPI_CMD, CMD_USR);
    s.tick(100);
    assert_eq!(s.read32(SPI_INT_RAW) & INT_TRANS_DONE, 0);
}

#[test]
fn slave_dma_completion_latches_its_own_flag() {
    let mut s = Spi::new(0);
    s.write32(SPI_SLAVE, SLAVE_MODE);
    s.write32(SPI_DMA_CONF, DMA_RX_ENA);
    assert!(s.slave_dma_rx_enabled());
    assert!(!s.slave_dma_tx_enabled());
    s.slave_dma_done(64, true);
    assert_ne!(s.read32(SPI_INT_RAW) & INT_WR_DMA_DONE, 0);
}

#[test]
fn dma_transfer_sends_staged_bytes() {
    let mut s = master(24);
    s.spi_dma_feed(&[0x11, 0x22]);
    s.spi_dma_feed(&[0x33]);
    assert_eq!(s.dma_staged(), 3);
    s.dma_trigger();
    assert_eq!(s.dma_staged(), 0);
    s.tick(24);
    assert_eq!(s.take_last_tx(), Some(vec![0x11, 0x22, 0x33]));
}

#[test]
fn sd_card_answers_on_the_bus() {
    let mut s = master(48);
    s.sdspi_attach(2);
    assert!(s.sdspi_attached());
    s.sdspi_test_select();
    // CMD0: 40 00 00 00 00 95.
    s.write32(SPI_DATA_BUF, 0x0000_0040);
    s.write32(SPI_DATA_BUF + 4, 0x0000_9500);
    s.write32(SPI_CMD, CMD_USR);
    s.tick(48);
    s.write32(SPI_MS_DLEN, 7);
    s.write32(SPI_DATA_BUF, 0xFF);
    s.write32(SPI_CMD, CMD_USR);
    s.tick(8);
    assert_eq!(s.read32(SPI_DATA_BUF) & 0xFF, 0x01);
}
