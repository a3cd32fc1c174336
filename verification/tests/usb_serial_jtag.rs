use esp32s3_soc::usb_serial_jtag::{
    UsbSerialJtag, CONF_SERIAL_IN_EP_DATA_FREE, CONF_SERIAL_OUT_EP_DATA_AVAIL, CONF_WR_DONE, EP1,
    EP1_CONF, INT_CLR, INT_ENA, INT_RAW, INT_SERIAL_IN_EMPTY, INT_SERIAL_OUT_RECV_PKT,
};

#[test]
fn tx_byte_emitted_and_wr_done_raises_empty_int() {
    let mut d = UsbSerialJtag::new();
    d.write32(INT_ENA, INT_SERIAL_IN_EMPTY);
    d.write32(EP1, b'H' as u32);
    d.write32(EP1, b'i' as u32);
    d.write32(EP1_CONF, CONF_WR_DONE);
    assert!(d.int_pending());
    assert_eq!(d.read32(INT_RAW) & INT_SERIAL_IN_EMPTY, INT_SERIAL_IN_EMPTY);
    let out = d.take_tx();
    assert_eq!(out, b"Hi");
}

#[test]
fn tx_byte_captured_immediately() {
    let mut d = UsbSerialJtag::new();
    d.write32(EP1, 0x41);
    assert_eq!(d.take_tx(), b"A");
}

#[test]
fn ep1_conf_signals_writable_and_rx_avail() {
    let mut d = UsbSerialJtag::new();
    assert_eq!(
        d.read32(EP1_CONF) & CONF_SERIAL_IN_EP_DATA_FREE,
        CONF_SERIAL_IN_EP_DATA_FREE
    );
    assert_eq!(d.read32(EP1_CONF) & CONF_SERIAL_OUT_EP_DATA_AVAIL, 0);
    d.inject_rx(b'X');
    assert_eq!(
        d.read32(EP1_CONF) & CONF_SERIAL_OUT_EP_DATA_AVAIL,
        CONF_SERIAL_OUT_EP_DATA_AVAIL
    );
    assert_eq!(
        d.read32(INT_RAW) & INT_SERIAL_OUT_RECV_PKT,
        INT_SERIAL_OUT_RECV_PKT
    );
}

#[test]
fn rx_fifo_pop_and_recv_int_clears_when_empty() {
    let mut d = UsbSerialJtag::new();
    d.inject_rx(0x55);
    d.inject_rx(0x56);
    assert_eq!(d.read32(EP1), 0x55);
    assert_eq!(d.read32(EP1), 0x56);
    assert_eq!(d.read32(EP1), 0); // empty
    assert_eq!(d.read32(INT_RAW) & INT_SERIAL_OUT_RECV_PKT, 0);
}

#[test]
fn int_clr_clears_raw() {
    let mut d = UsbSerialJtag::new();
    d.write32(INT_ENA, INT_SERIAL_IN_EMPTY);
    d.write32(EP1_CONF, CONF_WR_DONE);
    assert!(d.int_pending());
    d.write32(INT_CLR, INT_SERIAL_IN_EMPTY);
    assert_eq!(d.read32(INT_RAW) & INT_SERIAL_IN_EMPTY, 0);
}
