use esp32s3_soc::memmap::{DRAM_BASE, SYSTEM_BASE, UART0_BASE};
use esp32s3_soc::soc::outside::{
    OutsideBlock, AES_PAGE, CAM_START, DS_PAGE, HMAC_PAGE, I2C0_PAGE, I2C1_PAGE, LCD_CAM_PAGE,
    LCD_START, RSA_PAGE, SDMMC_PAGE, SHA_PAGE,
};
use esp32s3_soc::soc::{EmuEvent, Soc, CLK_EN0_RESET, CLK_EN1_RESET, EVT_I2C_START, EVT_I2C_STOP};
use esp32s3_soc::uart::{
    CONF0_TX_FLOW_EN, INT_RXFIFO_FULL, UART_CONF0, UART_CONF1, UART_FIFO, UART_INT_ENA,
};

const CLK_EN0: u32 = SYSTEM_BASE + 0x18;
const CLK_EN1: u32 = SYSTEM_BASE + 0x1C;

/// A chip with all clock gates open, or all closed.
fn chip(open: bool) -> Soc {
    let mut s = Soc::new();
    let word = if open { 0xFFFF_FFFF } else { 0 };
    s.write32(CLK_EN0, word);
    s.write32(CLK_EN1, word);
    s
}

#[test]
fn clocked_outside_blocks_get_every_write() {
    let s = chip(true);
    for page in [
        I2C0_PAGE, I2C1_PAGE, SDMMC_PAGE, AES_PAGE, SHA_PAGE, RSA_PAGE, DS_PAGE, HMAC_PAGE,
        LCD_CAM_PAGE, 0x6001_F000,
    ] {
        for off in [0x04, 0x08, 0x10, 0x14, 0x2C, 0x40, 0x48, 0x80C, 0xE00] {
            assert_eq!(s.outside_value(page, off, 0xFFFF_FFFF), Some(0xFFFF_FFFF));
        }
    }
}

#[test]
fn closed_gates_mask_or_lose_starts() {
    let s = chip(false);
    assert_eq!(s.outside_value(I2C0_PAGE, 0x04, 0x3F), Some(0x1F));
    assert_eq!(s.outside_value(I2C1_PAGE, 0x04, 0x21), Some(0x01));
    assert_eq!(s.outside_value(I2C1_PAGE, 0x08, 0x21), Some(0x21));
    for off in [0x10, 0x14, 0x1C, 0x20] {
        assert_eq!(s.outside_value(SHA_PAGE, off, 0), None);
    }
    assert_eq!(s.outside_value(SHA_PAGE, 0x18, 7), Some(7));
    assert_eq!(s.outside_value(AES_PAGE, 0x48, 0), None);
    assert_eq!(s.outside_value(AES_PAGE, 0x4C, 1), Some(1));
    assert_eq!(s.outside_value(HMAC_PAGE, 0x40, 1), None);
    assert_eq!(s.outside_value(HMAC_PAGE, 0x44, 1), Some(1));
    assert_eq!(s.outside_value(RSA_PAGE, 0x80C, 3), None);
    assert_eq!(s.outside_value(RSA_PAGE, 0x80C, 2), Some(2));
    assert_eq!(s.outside_value(DS_PAGE, 0xE00, 0x100), None);
    assert_eq!(s.outside_value(DS_PAGE, 0xE00, 0), Some(0));
    assert_eq!(s.outside_value(SDMMC_PAGE, 0x2C, 0x8000_0011), None);
    assert_eq!(s.outside_value(SDMMC_PAGE, 0x2C, 0x11), Some(0x11));
    assert_eq!(s.outside_value(LCD_CAM_PAGE, 0x14, LCD_START | 5), Some(5));
    assert_eq!(s.outside_value(LCD_CAM_PAGE, 0x08, CAM_START | 6), Some(6));
    assert_eq!(s.outside_value(LCD_CAM_PAGE, 0x08, LCD_START), Some(LCD_START));
    assert_eq!(s.outside_value(0x6001_F000, 0x10, 9), Some(9));
}

#[test]
fn each_outside_block_has_its_gate() {
    let gates = [
        (OutsideBlock::Ledc, false, 11),
        (OutsideBlock::I2c0, false, 7),
        (OutsideBlock::I2c1, false, 18),
        (OutsideBlock::Adc, false, 28),
        (OutsideBlock::Rmt, false, 9),
        (OutsideBlock::Mcpwm0, false, 17),
        (OutsideBlock::Mcpwm1, false, 20),
        (OutsideBlock::Pcnt, false, 10),
        (OutsideBlock::I2s0, false, 4),
        (OutsideBlock::I2s1, false, 21),
        (OutsideBlock::LcdCam, true, 8),
        (OutsideBlock::AudioPump, true, 6),
        (OutsideBlock::Sha, true, 2),
        (OutsideBlock::Aes, true, 1),
        (OutsideBlock::Rsa, true, 3),
        (OutsideBlock::Hmac, true, 5),
        (OutsideBlock::Ds, true, 4),
        (OutsideBlock::Sdmmc, true, 7),
    ];
    for (block, second, bit) in gates {
        let mut s = chip(false);
        assert!(!s.outside_clocked(block));
        s.write32(if second { CLK_EN1 } else { CLK_EN0 }, 1 << bit);
        assert!(s.outside_clocked(block));
    }
    let mut s = chip(false);
    assert!(s.outside_clocked(OutsideBlock::SigmaDelta));
    assert!(s.outside_clocked(OutsideBlock::PadInterrupts));
    s.write32(CLK_EN1, 1 << 8);
    assert!(!s.outside_clocked(OutsideBlock::CameraPump));
    s.write32(CLK_EN1, (1 << 8) | (1 << 6));
    assert!(s.outside_clocked(OutsideBlock::CameraPump));
}

#[test]
fn gated_camera_starts_no_stream() {
    let waiting = [false, true, true, false, false];
    let s = chip(true);
    assert_eq!(s.late_capture_start(0x08, CAM_START, false, true, waiting), Some(1));
    let s = chip(false);
    assert_eq!(s.late_capture_start(0x08, CAM_START, false, true, waiting), None);
}

#[test]
fn outside_inputs_sample_pads() {
    let mut s = Soc::new();
    assert_eq!((s.rmt_input(81), s.mcpwm_input(166), s.pcnt_input(33)), (1, 0, 0));
    s.pads_mut().set_raw_in(1 << 4);
    s.pads_mut().set_high_in(40, 1);
    s.pads_mut().set_in_sel(81, Some((4, true)));
    s.pads_mut().set_in_sel(166, Some((4, false)));
    s.pads_mut().set_in_sel(33, Some((4, false)));
    assert_eq!((s.rmt_input(81), s.mcpwm_input(166), s.pcnt_input(33)), (0, 1, 1));
    // A pad past the readback word.
    s.pads_mut().set_in_sel(81, Some((40, true)));
    s.pads_mut().set_in_sel(166, Some((40, true)));
    s.pads_mut().set_in_sel(33, Some((40, false)));
    assert_eq!((s.rmt_input(81), s.mcpwm_input(166), s.pcnt_input(33)), (1, 0, 1));
    // A pad driven by a block: the readback shows its level, the pulse counter sees
    // the output bit.
    s.pads_mut().set_in_sel(166, Some((5, false)));
    s.pads_mut().set_in_sel(33, Some((5, false)));
    s.pads_mut().set_out_sel(5, 73);
    s.pads_mut().set_outputs(0, 1 << 5);
    s.set_signal(73, 1);
    s.tick_timers(1);
    assert_eq!((s.mcpwm_input(166), s.pcnt_input(33)), (1, 0));
}

#[test]
fn outside_events_queue_in_order() {
    let mut s = Soc::new();
    let start = EmuEvent { kind: EVT_I2C_START, a: 1, b: 0 };
    let stop = EmuEvent { kind: EVT_I2C_STOP, a: 1, b: 0 };
    s.queue_event(start);
    s.queue_event(stop);
    assert_eq!(s.drain_events(), vec![start, stop]);
    assert!(s.drain_events().is_empty());
}

#[test]
fn steps_of_a_tick_make_a_tick() {
    let mut whole = Soc::new();
    let mut steps = Soc::new();
    for s in [&mut whole, &mut steps] {
        s.write32(UART0_BASE + UART_FIFO, 0x41);
    }
    whole.tick_timers(3);
    steps.begin_tick();
    for _ in 0..3 {
        steps.core_cycle();
        steps.uart_cycle();
        steps.spi2_cycle();
        steps.spi3_cycle();
        steps.usb_cycle();
    }
    steps.end_tick(3);
    assert_eq!(whole.take_uart_tx(0), steps.take_uart_tx(0));
    for a in [0x6001_F000u32, 0x6001_F004, 0x6002_3000, 0x6002_3040, 0x6008_0000] {
        assert_eq!(whole.read32(a), steps.read32(a));
    }
}

#[test]
fn gated_uart_follows_only_its_clear_to_send() {
    let mut s = Soc::new();
    s.write32(CLK_EN0, CLK_EN0_RESET & !(1 << 2));
    s.write32(CLK_EN1, CLK_EN1_RESET);
    s.write32(UART0_BASE + UART_CONF0, CONF0_TX_FLOW_EN);
    s.tick_timers(5);
    s.write32(UART0_BASE + UART_FIFO, 0x41);
    s.tick_timers(5);
    assert!(!s.uart_tx_pending(0));
    s.pads_mut().set_in_sel(13, Some((4, false)));
    s.tick_timers(5);
    assert_eq!(s.take_uart_tx(0), b"A".to_vec());
}

#[test]
fn received_bytes_show_at_the_next_scan() {
    let mut s = Soc::new();
    s.write32(UART0_BASE + UART_CONF1, 1);
    s.write32(UART0_BASE + UART_INT_ENA, INT_RXFIFO_FULL);
    assert_eq!(s.int_sources(0), 0);
    s.uart_inject_rx(0, 1);
    assert_eq!(s.int_sources(0), 1u128 << 27);
}

#[test]
fn failed_swap_changes_nothing() {
    let mut s = Soc::new();
    for i in 0..4 {
        s.write32(DRAM_BASE + 0x200 + 4 * i, 0x1000 + i);
    }
    assert_eq!(s.cas32(DRAM_BASE + 0x204, 7, 9), 0x1001);
    assert_eq!(s.cas32(DRAM_BASE + 0x208, 0x1002, 9), 0x1002);
    let words: Vec<u32> = (0..4).map(|i| s.read32(DRAM_BASE + 0x200 + 4 * i)).collect();
    assert_eq!(words, vec![0x1000, 0x1001, 9, 0x1003]);
}

/// A cipher that undoes itself: every byte is mixed with its block's offset.
fn mix(off: u32, block: &[u8]) -> Vec<u8> {
    block.iter().map(|b| b ^ 0x5A ^ (off >> 4) as u8).collect()
}

fn mix_all(flash: &[u8]) -> Vec<u8> {
    flash.chunks(16).enumerate().flat_map(|(b, block)| mix(16 * b as u32, block)).collect()
}

#[test]
fn encrypted_region_decrypts_to_what_it_held() {
    let mut s = Soc::new();
    let img: Vec<u8> = (0..0x100u32).map(|i| (i * 7) as u8).collect();
    s.load_flash_image(0, &img);
    let before = s.flash_image().to_vec();
    let view = mix_all(&before);
    s.flashenc_provision(&[3; 32], 0, &view);
    s.flashenc_encrypt_region(0, 0x40, &mix_all(&before)[..0x40]);
    assert_eq!(s.flash_image_decrypted()[..0x40], before[..0x40]);
    assert_eq!(s.flash_image()[0x40..], before[0x40..]);
    assert_eq!(s.flash_image_decrypted(), mix_all(s.flash_image()));
}
