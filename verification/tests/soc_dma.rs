use esp32s3_soc::memmap::{SPI2_BASE, SYSTEM_BASE};
use esp32s3_soc::soc::link::{
    late_camera, late_stream, LinkOutcome, LinkStart, CHANNEL_BLOCK, PERIPH_ADC, PERIPH_I2S0,
    PERIPH_I2S1, PERIPH_RMT, PERIPH_SPI2,
};
use esp32s3_soc::soc::stream::DmaCursor;
use esp32s3_soc::soc::Soc;
use esp32s3_soc::spi::{
    CLK_GATE_CLK_EN, CLOCK_EQU_SYSCLK, DMA_RX_ENA, DMA_TX_ENA, SLAVE_MODE, SPI_CLK_GATE, SPI_CLOCK,
    SPI_DMA_CONF, SPI_MS_DLEN, SPI_SLAVE, SPI_USER, USER_USR_MOSI,
};

const OWNER: u32 = 1 << 31;
const EOF: u32 = 1 << 30;
const D0: u32 = 0x3FC9_0000;
const D1: u32 = 0x3FC9_0020;
const SRC: u32 = 0x3FC9_1000;
const DST: u32 = 0x3FC9_2000;

fn descriptor(s: &mut Soc, at: u32, flags: u32, len: u32, buf: u32, next: u32) {
    s.write32(at, flags | (len << 12) | len);
    s.write32(at + 4, buf);
    s.write32(at + 8, next);
}

fn fill(s: &mut Soc, at: u32, n: u32) {
    for i in 0..n {
        s.write8(at + i, i + 1);
    }
}

fn dump(s: &mut Soc, at: u32, n: u32) -> Vec<u8> {
    (0..n).map(|i| s.read8(at + i) as u8).collect()
}

fn cursor(desc: u32) -> DmaCursor {
    DmaCursor { active: true, ch: 1, desc, off: 0 }
}

#[test]
fn memory_is_copied_and_descriptors_handed_back() {
    let mut s = Soc::new();
    fill(&mut s, SRC, 6);
    descriptor(&mut s, D0, OWNER | EOF, 6, SRC, 0);
    descriptor(&mut s, D1, OWNER | EOF, 8, DST, 0);
    assert_eq!(s.dma_mem_copy(D0, D1), Some(D0));
    assert_eq!(dump(&mut s, DST, 7), vec![1, 2, 3, 4, 5, 6, 0]);
    assert_eq!(s.read32(D0) & OWNER, 0);
    assert_eq!(s.read32(D1) & OWNER, 0);
    assert_eq!(s.dma_mem_copy(D0, D1), None);
}

#[test]
fn spi_chain_is_sent_in_one_transfer() {
    let mut s = Soc::new();
    s.write32(SPI2_BASE + SPI_CLK_GATE, CLK_GATE_CLK_EN);
    s.write32(SPI2_BASE + SPI_CLOCK, CLOCK_EQU_SYSCLK);
    s.write32(SPI2_BASE + SPI_USER, USER_USR_MOSI);
    s.write32(SPI2_BASE + SPI_MS_DLEN, 7 * 8 - 1);
    fill(&mut s, SRC, 7);
    descriptor(&mut s, D0, OWNER, 4, SRC, D1);
    descriptor(&mut s, D1, OWNER | EOF, 3, SRC + 4, 0);
    assert_eq!(s.dma_spi_out(0, D0), Some(D1));
    s.tick_timers(56);
    assert_eq!(s.spi_take_tx(0), vec![1, 2, 3, 4, 5, 6, 7]);
}

#[test]
fn slave_transfers_use_the_chain() {
    let mut s = Soc::new();
    s.write32(SPI2_BASE + SPI_SLAVE, SLAVE_MODE);
    s.write32(SPI2_BASE + SPI_DMA_CONF, DMA_RX_ENA | DMA_TX_ENA);
    descriptor(&mut s, D0, OWNER, 2, DST, D1);
    descriptor(&mut s, D1, OWNER | EOF, 4, DST + 2, 0);
    assert!(s.spi_slave_inject_write(0, &[9, 8, 7], Some(D0)));
    assert_eq!(dump(&mut s, DST, 4), vec![9, 8, 7, 0]);
    // Only the filled descriptor comes back.
    assert_eq!(s.read32(D0) & OWNER, 0);
    assert_ne!(s.read32(D1) & OWNER, 0);
    assert!(!s.spi_slave_inject_write(0, &[1], None));
    fill(&mut s, SRC, 5);
    descriptor(&mut s, D0, OWNER | EOF, 5, SRC, 0);
    assert_eq!(s.spi_slave_take_read(0, 3, Some(D0)), vec![1, 2, 3]);
    assert_eq!(s.spi_slave_take_read(0, 9, Some(D0)), vec![1, 2, 3, 4, 5]);
    assert_eq!(s.spi_slave_take_read(0, 9, None), Vec::<u8>::new());
}

#[test]
fn output_stream_follows_the_chain() {
    let mut s = Soc::new();
    fill(&mut s, SRC, 16);
    descriptor(&mut s, D0, OWNER, 8, SRC, D1);
    descriptor(&mut s, D1, OWNER, 8, SRC + 8, 0);
    let p = s.stream_out(cursor(D0), 3);
    assert_eq!(p.words, vec![0x0403_0201, 0x0807_0605, 0x0C0B_0A09]);
    assert_eq!(p.eofs, vec![D0]);
    assert!(p.cur == DmaCursor { active: true, ch: 1, desc: D1, off: 4 });
    let p = s.stream_out(p.cur, 3);
    assert_eq!(p.words, vec![0x100F_0E0D]);
    assert_eq!(p.eofs, vec![D1]);
    assert!(!p.cur.active);
}

#[test]
fn input_stream_fills_the_chain() {
    let mut s = Soc::new();
    descriptor(&mut s, D0, OWNER, 8, DST, 0);
    let p = s.stream_in(cursor(D0), &[0x11, 0x22, 0x33]);
    assert_eq!(p.used, 2);
    assert_eq!(p.eofs, vec![D0]);
    assert!(!p.cur.active);
    assert_eq!(s.read32(DST + 4), 0x22);
    // A descriptor that is not owned stops the stream.
    descriptor(&mut s, D0, 0, 8, DST, 0);
    let p = s.stream_in(cursor(D0), &[0x44]);
    assert_eq!(p.used, 0);
    assert!(!p.cur.active);
}

#[test]
fn camera_frame_end_finishes_the_descriptor() {
    let mut s = Soc::new();
    descriptor(&mut s, D0, OWNER, 16, DST, 0);
    let (p, _) = s.stream_camera(cursor(D0), true, false, true, &[5, 6]);
    assert_eq!(p.used, 2);
    assert_ne!(s.read32(D0) & OWNER, 0);
    let (p, _) = s.stream_camera(p.cur, false, true, false, &[]);
    assert_eq!(p.eofs, vec![D0]);
    assert_eq!(s.read32(D0) & OWNER, 0);
    assert!(!p.cur.active);
}

#[test]
fn sd_ring_gathers_and_scatters() {
    let mut s = Soc::new();
    fill(&mut s, SRC, 10);
    s.write32(D0, OWNER);
    s.write32(D0 + 4, 4);
    s.write32(D0 + 8, SRC);
    s.write32(D0 + 12, D1);
    s.write32(D1, OWNER | 4);
    s.write32(D1 + 4, 0);
    s.write32(D1 + 8, SRC + 4);
    assert_eq!(s.idmac_gather(D0, 9), vec![1, 2, 3, 4, 5, 6, 7, 8, 9]);
    assert_eq!(s.read32(D0) & OWNER, 0);
    s.idmac_scatter(D0, 6, &[21, 22, 23, 24, 25, 26]);
    assert_eq!(dump(&mut s, SRC, 7), vec![21, 22, 23, 24, 25, 26, 7]);
}

fn link(peri: u32, is_out: bool) -> LinkStart {
    LinkStart {
        ch: 2,
        is_out,
        link: D0,
        peri,
        mem_trans: false,
        out_started: is_out,
        in_started: !is_out,
        out_link: D0,
        in_link: D1,
    }
}

#[test]
fn links_start_only_with_their_clock() {
    let mut s = Soc::new();
    assert!(s.dma_start(link(PERIPH_I2S0, true)) == LinkOutcome::Stopped);
    s.write32(SYSTEM_BASE + 0x1C, 1 << 6);
    let start = DmaCursor { active: true, ch: 2, desc: D0, off: 0 };
    assert!(s.dma_start(link(PERIPH_I2S0, true)) == LinkOutcome::Stream(start));
    assert!(s.dma_start(link(PERIPH_RMT, true)) == LinkOutcome::Outside);
    assert!(s.dma_start(link(PERIPH_ADC, false)) == LinkOutcome::Outside);
    s.write32(SPI2_BASE + SPI_SLAVE, SLAVE_MODE);
    assert!(s.dma_start(link(PERIPH_SPI2, false)) == LinkOutcome::Armed);
}

#[test]
fn memory_links_run_once_both_are_started() {
    let mut s = Soc::new();
    s.write32(SYSTEM_BASE + 0x1C, 1 << 6);
    fill(&mut s, SRC, 4);
    descriptor(&mut s, D0, OWNER | EOF, 4, SRC, 0);
    descriptor(&mut s, D1, OWNER | EOF, 4, DST, 0);
    let half = LinkStart { mem_trans: true, ..link(0, true) };
    assert!(s.dma_start(half) == LinkOutcome::Armed);
    let both = LinkStart { in_started: true, ..half };
    assert!(s.dma_start(both) == LinkOutcome::Copied(Some(D0)));
    assert_eq!(s.read32(DST), 0x0403_0201);
}

#[test]
fn late_peripheral_selection_starts_a_stream() {
    let none = [false, false];
    let late = |off: u32, value: u32, out: bool, input: bool| {
        late_stream(off, value, out, input, none, none)
    };
    assert_eq!(late(CHANNEL_BLOCK + 0xA8, PERIPH_I2S1, true, false), Some((1, true, 1)));
    assert_eq!(late(0x48, PERIPH_I2S0, false, true), Some((0, false, 0)));
    assert_eq!(late(0x48, PERIPH_I2S0, true, false), None);
    assert_eq!(late(0x48, PERIPH_SPI2, false, true), None);
    assert_eq!(late(5 * CHANNEL_BLOCK + 0x48, PERIPH_I2S0, false, true), None);
    // A port that streams already is left alone.
    assert_eq!(late_stream(0xA8, PERIPH_I2S0, true, false, [true, false], none), None);
    assert_eq!(
        late_stream(0xA8, PERIPH_I2S1, true, false, [true, false], none),
        Some((0, true, 1))
    );
    assert_eq!(late_stream(0x48, PERIPH_I2S1, false, true, none, [false, true]), None);
}

#[test]
fn late_capture_uses_the_first_waiting_channel() {
    let waiting = [false, false, true, true, false];
    assert_eq!(late_camera(0x08, 1 << 29, false, true, waiting), Some(2));
    assert_eq!(late_camera(0x08, 1 << 29, true, true, waiting), None);
    assert_eq!(late_camera(0x08, 1 << 29, false, false, waiting), None);
    assert_eq!(late_camera(0x08, 1 << 28, false, true, waiting), None);
    assert_eq!(late_camera(0x0C, 1 << 29, false, true, waiting), None);
    assert_eq!(late_camera(0x08, 1 << 29, false, true, [false; 5]), None);
}

#[test]
fn outside_chain_is_gathered_and_handed_back() {
    let mut s = Soc::new();
    fill(&mut s, SRC, 16);
    descriptor(&mut s, D0, OWNER, 10, SRC, D1);
    descriptor(&mut s, D1, OWNER | EOF, 4, SRC + 12, 0);
    let got = s.dma_gather(D0);
    // Whole words only.
    assert_eq!(got.words, vec![0x0403_0201, 0x0807_0605, 0x100F_0E0D]);
    assert_eq!(got.ends, vec![2, 3]);
    assert_eq!(got.eof, Some(D1));
    assert_eq!(s.read32(D0) & OWNER, 0);
    assert_eq!(s.read32(D1) & OWNER, 0);
    assert_eq!(s.dma_gather(D0).eof, None);
}

#[test]
fn outside_chain_is_filled() {
    let mut s = Soc::new();
    descriptor(&mut s, D0, OWNER, 8, DST, D1);
    descriptor(&mut s, D1, OWNER | EOF, 8, DST + 8, 0);
    assert_eq!(s.dma_fill(D0, &[1, 2, 3], false), 2);
    assert_eq!([s.read32(DST), s.read32(DST + 4), s.read32(DST + 8), s.read32(DST + 12)], [1, 2, 3, 0]);
    assert_eq!(s.read32(D1) & OWNER, 0);
    descriptor(&mut s, D0, OWNER, 8, DST, D1);
    descriptor(&mut s, D1, OWNER | EOF, 8, DST + 8, 0);
    assert_eq!(s.dma_fill(D0, &[7, 8, 9], true), 2);
    assert_eq!([s.read32(DST), s.read32(DST + 4), s.read32(DST + 8), s.read32(DST + 12)], [7, 8, 7, 8]);
}

#[test]
fn unserved_chain_is_handed_back_as_it_is() {
    let mut s = Soc::new();
    s.write32(SYSTEM_BASE + 0x1C, 1 << 6);
    fill(&mut s, DST, 4);
    descriptor(&mut s, D0, OWNER | EOF, 4, DST, 0);
    assert!(s.dma_start(link(40, false)) == LinkOutcome::Walked(None));
    assert_eq!(s.read32(D0) & OWNER, 0);
    assert_eq!(s.read32(DST), 0x0403_0201);
    descriptor(&mut s, D0, OWNER | EOF, 4, DST, 0);
    assert_eq!(s.dma_release(D0), 1);
    assert_eq!(s.dma_release(D0), 0);
}
