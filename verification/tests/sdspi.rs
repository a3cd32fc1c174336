use esp32s3_soc::sdspi::{SdspiCard, BLOCK_BYTES};

fn selected_card(blocks: usize) -> SdspiCard {
    let mut c = SdspiCard::new();
    c.attach(blocks);
    c.select(true);
    c
}

/// Send a command frame, then clock `n` bytes of the answer.
fn command(c: &mut SdspiCard, cmd: u8, arg: u32, n: usize) -> Vec<u8> {
    let a = arg.to_be_bytes();
    for b in [0x40 | cmd, a[0], a[1], a[2], a[3], 0x95] {
        c.feed(b);
    }
    (0..n).map(|_| c.feed(0xFF)).collect()
}

fn bring_up(c: &mut SdspiCard) {
    assert_eq!(command(c, 0, 0, 1), vec![0x01]);
    assert_eq!(command(c, 55, 0, 1), vec![0x01]);
    assert_eq!(command(c, 41, 0x4000_0000, 1), vec![0x01]);
    assert_eq!(command(c, 55, 0, 1), vec![0x01]);
    assert_eq!(command(c, 41, 0x4000_0000, 1), vec![0x00]);
}

#[test]
fn deselected_card_reads_idle() {
    let mut c = SdspiCard::new();
    assert!(!c.attached());
    c.attach(4);
    assert!(c.attached());
    for b in [0x40, 0, 0, 0, 0, 0x95, 0xFF, 0xFF] {
        assert_eq!(c.feed(b), 0xFF);
    }
    c.select(true);
    assert_eq!(c.feed(0xFF), 0xFF);
}

#[test]
fn init_sequence_becomes_ready() {
    let mut c = selected_card(4);
    bring_up(&mut c);
}

#[test]
fn bare_application_command_is_refused() {
    let mut c = selected_card(4);
    command(&mut c, 0, 0, 1);
    assert_eq!(command(&mut c, 41, 0, 1), vec![0x04]);
}

#[test]
fn deselect_drops_a_partial_frame() {
    let mut c = selected_card(4);
    for b in [0x40, 0, 0] {
        c.feed(b);
    }
    c.select(false);
    c.select(true);
    assert_eq!(command(&mut c, 0, 0, 1), vec![0x01]);
}

#[test]
fn block_write_is_read_back() {
    let mut c = selected_card(4);
    bring_up(&mut c);
    assert_eq!(command(&mut c, 24, 2, 1), vec![0x00]);
    let data: Vec<u8> = (0..BLOCK_BYTES).map(|i| (i * 7 + 3) as u8).collect();
    c.feed(0xFE);
    for b in &data {
        c.feed(*b);
    }
    c.feed(0);
    c.feed(0);
    assert_eq!(c.feed(0xFF), 0x05);
    assert_eq!(c.feed(0xFF), 0x00);
    assert_eq!(c.feed(0xFF), 0x00);
    assert_eq!(c.feed(0xFF), 0xFF);
    let answer = command(&mut c, 17, 2, 2 + BLOCK_BYTES + 2);
    assert_eq!(answer[0], 0x00);
    assert_eq!(answer[1], 0xFE);
    assert_eq!(&answer[2..2 + BLOCK_BYTES], &data[..]);
    let other = command(&mut c, 17, 1, 2 + BLOCK_BYTES + 2);
    assert!(other[2..2 + BLOCK_BYTES].iter().all(|b| *b == 0));
}

#[test]
fn read_carries_crc16_of_the_block() {
    let mut c = SdspiCard::new();
    let mut image = vec![0xFFu8; BLOCK_BYTES];
    image[0] = 0xFF;
    c.attach_image(&image);
    c.select(true);
    bring_up(&mut c);
    let answer = command(&mut c, 17, 0, 2 + BLOCK_BYTES + 2);
    // CRC-16/XMODEM of 512 bytes of 0xFF.
    assert_eq!(&answer[2 + BLOCK_BYTES..], &[0x7F, 0xA1]);
}
