use esp32s3_soc::twai::{
    Twai, CMD_CLEAR_OVERRUN, CMD_RELEASE, CMD_SELF_RX, CMD_TX, INT_OVERRUN, INT_RX, INT_TX,
    MODE_RESET, MODE_SELF_TEST, ST_OVERRUN, ST_RX,
};

/// A controller in the given mode, with the frame in its buffer and no filter.
fn loaded(mode: u32) -> Twai {
    let mut t = Twai::new();
    t.write32(0x00, mode);
    for i in 0..13u32 {
        t.write32(0x40 + 4 * i, 0x10 + i);
    }
    t
}

#[test]
fn self_test_receives_its_own_frame() {
    let mut t = loaded(MODE_SELF_TEST);
    t.write32(0x10, 0xFF);
    t.write32(0x04, CMD_TX);
    assert_eq!(t.read32(0x08) & ST_RX, ST_RX);
    assert_eq!(t.read32(0x74), 1);
    assert_eq!(t.int_st(), INT_RX | INT_TX);
    assert_eq!(t.read32(0x0C), INT_RX | INT_TX);
    // Reading the interrupt register leaves the receive interrupt.
    assert_eq!(t.read32(0x0C), INT_RX);
    for i in 0..13u32 {
        assert_eq!(t.read32(0x40 + 4 * i), 0x10 + i);
    }
    t.write32(0x04, CMD_RELEASE);
    assert_eq!(t.read32(0x08) & ST_RX, 0);
    assert_eq!(t.read32(0x74), 0);
}

#[test]
fn plain_transmission_is_not_received() {
    let mut t = loaded(0);
    t.write32(0x04, CMD_TX);
    assert_eq!(t.read32(0x74), 0);
    assert_eq!(t.read32(0x0C), INT_TX);
}

#[test]
fn second_frame_overruns() {
    let mut t = loaded(0);
    t.write32(0x04, CMD_SELF_RX);
    assert_eq!(t.read32(0x08) & ST_OVERRUN, 0);
    t.write32(0x04, CMD_SELF_RX);
    assert_eq!(t.read32(0x08) & ST_OVERRUN, ST_OVERRUN);
    assert_ne!(t.read32(0x0C) & INT_OVERRUN, 0);
    t.write32(0x04, CMD_CLEAR_OVERRUN);
    assert_eq!(t.read32(0x08) & ST_OVERRUN, 0);
}

#[test]
fn filter_rejects_other_identifiers() {
    let mut t = Twai::new();
    t.write32(0x40, 0xAA);
    t.write32(0x50, 0xFF);
    t.write32(0x00, 0);
    let mut frame = [0u8; 13];
    frame[0] = 0xAB;
    t.inject_rx(frame);
    assert_eq!(t.read32(0x74), 0);
    frame[0] = 0xAA;
    t.inject_rx(frame);
    assert_eq!(t.read32(0x74), 1);
}

#[test]
fn reset_mode_is_silent() {
    let mut t = Twai::new();
    assert_eq!(t.read32(0x00), MODE_RESET);
    t.write32(0x04, CMD_SELF_RX);
    t.inject_rx([1u8; 13]);
    assert_eq!(t.read32(0x74), 0);
    assert!(!t.int_pending());
}
