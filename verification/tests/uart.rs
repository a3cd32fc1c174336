use esp32s3_soc::uart::{
    Uart, CONF0_LOOPBACK, CONF0_TX_FLOW_EN, CONF1_RX_TOUT_EN, FIFO_DEPTH, INT_RXFIFO_FULL,
    INT_RXFIFO_TOUT, UART_CONF0, UART_CONF1, UART_FIFO, UART_INT_CLR, UART_INT_ENA, UART_INT_RAW,
    UART_INT_ST, UART_STATUS,
};

#[test]
fn received_bytes_keep_their_order() {
    let mut u = Uart::new();
    assert!(!u.rx_pending());
    for b in [b'a', b'b', b'c'] {
        u.inject_rx(b);
    }
    assert!(u.rx_pending());
    assert_eq!(u.read32(UART_STATUS) & 0x3FF, 3);
    assert_eq!(u.read32(UART_FIFO), b'a' as u32);
    assert_eq!(u.take_rx(5), b"bc".to_vec());
    assert!(!u.rx_pending());
    assert_eq!(u.read32(UART_STATUS) & 0x3FF, 0);
}

#[test]
fn receive_fifo_is_bounded() {
    let mut u = Uart::new();
    for i in 0..FIFO_DEPTH + 10 {
        u.inject_rx(i as u8);
    }
    assert_eq!(u.take_rx(1000).len(), FIFO_DEPTH);
}

#[test]
fn transmitted_bytes_leave_at_once() {
    let mut u = Uart::new();
    u.write32(UART_FIFO, 0x48);
    u.write32(UART_FIFO, 0x69);
    u.push_tx(b"!");
    assert_eq!(u.tx_len(), 3);
    assert_eq!(u.take_tx(), b"Hi!".to_vec());
    assert_eq!(u.tx_len(), 0);
}

#[test]
fn flow_control_holds_output_until_cts() {
    let mut u = Uart::new();
    u.write32(UART_CONF0, CONF0_TX_FLOW_EN);
    u.set_cts(1);
    u.write32(UART_FIFO, 0x41);
    assert_eq!(u.tx_len(), 0);
    u.set_cts(0);
    u.tick(1);
    assert_eq!(u.take_tx(), b"A".to_vec());
}

#[test]
fn loopback_feeds_the_receiver() {
    let mut u = Uart::new();
    u.write32(UART_CONF0, CONF0_LOOPBACK);
    u.write32(UART_FIFO, 0x5A);
    assert_eq!(u.take_rx(1), vec![0x5A]);
}

#[test]
fn full_threshold_raises_and_clears() {
    let mut u = Uart::new();
    u.write32(UART_CONF1, 2);
    u.write32(UART_INT_ENA, INT_RXFIFO_FULL);
    u.inject_rx(1);
    assert_eq!(u.int_st() & INT_RXFIFO_FULL, 0);
    u.inject_rx(2);
    assert_ne!(u.int_st() & INT_RXFIFO_FULL, 0);
    assert_ne!(u.read32(UART_INT_ST) & INT_RXFIFO_FULL, 0);
    u.take_rx(2);
    u.write32(UART_INT_CLR, INT_RXFIFO_FULL);
    assert_eq!(u.read32(UART_INT_RAW) & INT_RXFIFO_FULL, 0);
}

#[test]
fn receive_timeout_needs_an_idle_line() {
    let mut u = Uart::new();
    u.write32(UART_CONF1, CONF1_RX_TOUT_EN | (1 << 10));
    u.tick(1_000_000);
    assert_eq!(u.read32(UART_INT_RAW) & INT_RXFIFO_TOUT, 0);
    u.inject_rx(7);
    u.tick(1_000_000);
    assert_ne!(u.read32(UART_INT_RAW) & INT_RXFIFO_TOUT, 0);
}

#[test]
fn receive_edge_is_taken_once() {
    let mut u = Uart::new();
    assert!(!u.take_rx_edge());
    u.inject_rx(1);
    assert!(u.take_rx_edge());
    assert!(!u.take_rx_edge());
}
