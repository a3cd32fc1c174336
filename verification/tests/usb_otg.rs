use esp32s3_soc::usb_otg::{
    UsbOtg, DAINT, DAINT_IN_EP0, DAINT_OUT_EP0, DCFG, DCTL, DEPCTL_EPENA, DEV_DESC, DFIFO0,
    DIEPCTL0, DIEPEMPMSK, DIEPEMPMSK_EP0, DIEPINT0, DIEPINT_TXFE, DIEPTSIZ0, DOEPCTL0, DOEPINT0,
    DOEPINT_SETUP, DOEPINT_STPKTRX, DOEPTSIZ0, DSTS, DSTS_ENUMSPD_FS, DTXFSTS0, GINTMSK, GINTSTS,
    GINT_ENUMDNE, GINT_IEPINT, GINT_OEPINT, GINT_PRTINT, GINT_RXFLVL, GINT_USBRST, GNPTXSTS,
    GRSTCTL, GRST_AHBIDLE, GRST_CSFTRST, GRST_TXFFLSH, GRXSTSP, GRXSTSP_PKTSTS_SETUP_DONE,
    GRXSTSP_PKTSTS_SETUP_RX, GUSBCFG, GUSBCFG_FORCE_DEVICE, GUSBCFG_FORCE_HOST, HCCHAR_CHENA,
    HCINT_CHHALTED, HCINT_OFF, HCINT_STALL, HCINT_XFERCOMPL, HCTSIZ_OFF, HC_BASE, HPRT,
    HPRT_CONNDET, HPRT_CONNSTS, HPRT_ENA, HPRT_ENCHNG, HPRT_PWR, HPRT_RST, TXFIFO_WORDS,
};

#[test]
fn core_soft_reset_handshake() {
    let mut u = UsbOtg::new();
    // AHBIDL reads set out of reset.
    assert_ne!(u.read32(GRSTCTL) & GRST_AHBIDLE, 0);
    // Dirty some state, then reset: bank restores, bit self-clears.
    u.write32(DCFG, 0x1234_5678);
    u.write32(DFIFO0, 0xDEAD_BEEF);
    u.write32(GRSTCTL, GRST_CSFTRST);
    assert_eq!(u.read32(GRSTCTL) & GRST_CSFTRST, 0, "self-clears");
    assert_ne!(u.read32(GRSTCTL) & GRST_AHBIDLE, 0, "idle after reset");
    assert_eq!(u.read32(DCFG), 0, "bank restored");
    assert_eq!(u.read32(DTXFSTS0), TXFIFO_WORDS, "FIFO drained");
    assert!(!u.int_pending(), "quiet without a host");
}

#[test]
fn device_config_and_ep0_round_trip() {
    let mut u = UsbOtg::new();
    u.write32(GUSBCFG, 1 << 30); // forcedevmode
    assert_eq!(u.read32(GUSBCFG) >> 30, 1);
    u.write32(DCFG, 3); // full-speed device
    assert_eq!(u.read32(DCFG) & 3, 3);
    u.write32(DCTL, 1 << 1); // soft disconnect
    assert_ne!(u.read32(DCTL) & (1 << 1), 0);
    u.write32(DCTL, 0);
    assert_eq!(u.read32(DCTL) & (1 << 1), 0, "reconnect");
    // EP0: activate + 64-byte MPS both directions.
    u.write32(DIEPCTL0, 1 << 15);
    u.write32(DOEPCTL0, 1 << 15);
    assert_ne!(u.read32(DIEPCTL0) & (1 << 15), 0);
    assert_ne!(u.read32(DOEPCTL0) & (1 << 15), 0);
    // No bus events: device/endpoint status reads 0.
    assert_eq!(u.read32(GINTSTS), 0);
    assert_eq!(u.read32(DSTS), 0);
    assert_eq!(u.read32(DAINT), 0);
    assert_eq!(u.read32(GRXSTSP), 0);
}

#[test]
fn txfifo_staging_reports_space() {
    let mut u = UsbOtg::new();
    // Device mode (reset default): DFIFO0 writes stage the EP0 SETUP
    // packet, not the TXFIFO — space stays full.
    assert_eq!(u.read32(DTXFSTS0), TXFIFO_WORDS);
    u.write32(GUSBCFG, GUSBCFG_FORCE_HOST); // host mode stages TXFIFO
    for i in 0..4u32 {
        u.write32(DFIFO0, 0x1111_1111 * (i + 1));
    }
    assert_eq!(u.read32(DTXFSTS0), TXFIFO_WORDS - 4);
    assert_eq!(u.read32(GNPTXSTS) & 0xFFFF, TXFIFO_WORDS - 4);
    // TX flush drops staged bytes.
    u.write32(GRSTCTL, GRST_TXFFLSH | (1 << 6));
    assert_eq!(u.read32(DTXFSTS0), TXFIFO_WORDS);
}

const HCCH: u32 = HC_BASE;
const HCTS: u32 = HC_BASE + HCTSIZ_OFF;
const HCIN: u32 = HC_BASE + HCINT_OFF;

/// Force host mode + power the port (connects the simulated device).
fn host_up(u: &mut UsbOtg) {
    u.write32(GUSBCFG, GUSBCFG_FORCE_HOST);
    u.write32(HPRT, HPRT_PWR);
    assert_ne!(u.read32(HPRT) & HPRT_CONNSTS, 0, "connected");
    assert_ne!(u.read32(HPRT) & HPRT_CONNDET, 0, "connect detected");
    assert_eq!((u.read32(HPRT) >> 17) & 3, 1, "full-speed");
    u.write32(HPRT, HPRT_RST | HPRT_PWR);
    assert_eq!(u.read32(HPRT) & HPRT_RST, 0, "reset self-clears");
    assert_ne!(u.read32(HPRT) & HPRT_ENA, 0, "enabled");
    assert_ne!(u.read32(HPRT) & HPRT_ENCHNG, 0, "enable changed");
    assert_ne!(u.read32(GINTSTS) & GINT_PRTINT, 0, "port interrupt");
    u.write32(HPRT, HPRT_ENCHNG | HPRT_CONNDET | HPRT_PWR); // W1C
    assert_eq!(u.read32(GINTSTS) & GINT_PRTINT, 0, "port int clears");
}

/// Program channel 0 (control, EP0, MPS 64) and run one transfer.
fn hc_xfer(u: &mut UsbOtg, addr: u8, out: bool, pid: u32, xfer: u32) {
    u.write32(HCTS, xfer | (1 << 19) | (pid << 29));
    let dir = if out { 0 } else { 1 << 15 };
    u.write32(HCCH, 64 | dir | ((addr as u32) << 22) | HCCHAR_CHENA);
}

fn hc_flags(u: &mut UsbOtg) -> u32 {
    u.read32(HCIN)
}

fn hc_clear(u: &mut UsbOtg) {
    u.write32(HCIN, HCINT_XFERCOMPL | HCINT_CHHALTED | HCINT_STALL);
}

/// Full control read: SETUP(8B staged) + IN(xfer B) + zero-length OUT.
fn ctrl_read(u: &mut UsbOtg, addr: u8, setup: [u32; 2], xfer: u32) -> Vec<u8> {
    u.write32(DFIFO0, setup[0]);
    u.write32(DFIFO0, setup[1]);
    hc_xfer(u, addr, true, 3, 8); // SETUP
    assert_ne!(hc_flags(u) & HCINT_XFERCOMPL, 0, "setup completes");
    hc_clear(u);
    hc_xfer(u, addr, false, 2, xfer); // IN DATA1
    assert_ne!(hc_flags(u) & HCINT_XFERCOMPL, 0, "in completes");
    hc_clear(u);
    let meta = u.read32(GRXSTSP);
    assert_eq!((meta >> 4) & 0x7FF, xfer.min(512), "rx byte count");
    let mut out = Vec::new();
    for _ in 0..xfer.div_ceil(4) {
        out.extend_from_slice(&u.read32(DFIFO0).to_le_bytes());
    }
    out.truncate(xfer as usize);
    hc_xfer(u, addr, true, 2, 0); // OUT status
    assert_ne!(hc_flags(u) & HCINT_XFERCOMPL, 0, "status completes");
    hc_clear(u);
    out
}

#[test]
fn host_port_connect_and_reset() {
    let mut u = UsbOtg::new();
    assert_eq!(u.read32(GINTSTS), 0, "quiet before attach");
    host_up(&mut u);
    assert!(u.dev.present);
    assert_eq!(u.dev.addr, 0);
}

#[test]
fn host_get_descriptor_device() {
    let mut u = UsbOtg::new();
    host_up(&mut u);
    // GET_DESCRIPTOR device: rt=0x80 req=6 val=0x0100 len=18.
    let setup = [0x01000680u32, 0x00120000u32]; // LE words of the 8B packet
    let desc = ctrl_read(&mut u, 0, setup, 18);
    assert_eq!(desc.len(), 18);
    assert_eq!(desc[0], 18, "bLength");
    assert_eq!(desc[1], 1, "DEVICE");
    assert_eq!(
        u16::from_le_bytes([desc[8], desc[9]]),
        0x303A,
        "Espressif VID"
    );
    assert_eq!(u16::from_le_bytes([desc[10], desc[11]]), 0x1001, "PID");
    assert_eq!(u.read32(GINTSTS) & GINT_RXFLVL, 0, "rx drained");
}

#[test]
fn host_set_address_then_config() {
    let mut u = UsbOtg::new();
    host_up(&mut u);
    // SET_ADDRESS(7): SETUP + zero-length IN status applies it.
    u.write32(DFIFO0, 0x00070500);
    u.write32(DFIFO0, 0x00000000);
    hc_xfer(&mut u, 0, true, 3, 8);
    hc_clear(&mut u);
    hc_xfer(&mut u, 0, false, 2, 0);
    assert_ne!(hc_flags(&mut u) & HCINT_XFERCOMPL, 0);
    hc_clear(&mut u);
    assert_eq!(u.dev.addr, 7, "address applied at status");
    // Old address now STALLs.
    hc_xfer(&mut u, 0, false, 2, 8);
    assert_ne!(hc_flags(&mut u) & HCINT_STALL, 0, "stale addr stalls");
    assert_eq!(hc_flags(&mut u) & HCINT_XFERCOMPL, 0, "no completion");
    hc_clear(&mut u);
    // GET_DESCRIPTOR config at the new address (full 32 B).
    let setup = [0x02000680u32, 0x00200000u32];
    let cfg = ctrl_read(&mut u, 7, setup, 32);
    assert_eq!(cfg[0], 9, "config length");
    assert_eq!(cfg[1], 2, "CONFIGURATION");
    assert_eq!(cfg[2], 32, "total length");
    assert_eq!(cfg[13], 2, "two endpoints");
    // SET_CONFIGURATION(1): SETUP + IN status.
    u.write32(DFIFO0, 0x00010900);
    u.write32(DFIFO0, 0x00000000);
    hc_xfer(&mut u, 7, true, 3, 8);
    hc_clear(&mut u);
    hc_xfer(&mut u, 7, false, 2, 0);
    hc_clear(&mut u);
    assert_eq!(u.dev.configured, 1);
}

// Device-mode EP0 loopback: stage a GET_DESCRIPTOR(DEVICE) SETUP via
// DFIFO0, expect DOEPINT0 XFRC; DFIFO0 reads serve the 18-byte device
// descriptor; the transfer-size write completes status (DIEPINT0 XFRC).
#[test]
fn dev_loopback_get_descriptor_device() {
    let mut u = UsbOtg::new();
    // Write the 8 SETUP bytes as two LE words: [80 06 00 01 | 00 00 12 00]
    // = GET_DESCRIPTOR device, wLength 18.
    u.write32(DFIFO0, 0x0100_0680);
    u.write32(DFIFO0, 0x0012_0000);
    assert_ne!(u.read32(DOEPINT0) & 1, 0, "SETUP XFRC");
    // IN data stage: 18 descriptor bytes pop via DFIFO0.
    let mut got = [0u8; 18];
    for chunk in got.chunks_mut(4) {
        let w = u.read32(DFIFO0);
        for (i, b) in chunk.iter_mut().enumerate() {
            *b = ((w >> (8 * i)) & 0xFF) as u8;
        }
    }
    assert_eq!(&got, &DEV_DESC, "device descriptor round-trip");
    // Status stage: transfer-size write raises IN XFRC.
    u.write32(DIEPTSIZ0, 0);
    assert_ne!(u.read32(DIEPINT0) & 1, 0, "status XFRC");
    u.write32(DIEPINT0, 1);
    u.write32(DOEPINT0, 1);
    assert_eq!(u.read32(DIEPINT0) & 1, 0, "W1C clears");
    assert_eq!(u.read32(DOEPINT0) & 1, 0, "W1C clears");
}

// Unknown SETUP request STALLs (DOEPINT0 STALL, no XFRC); SET_ADDRESS
// applies at the status-stage write.
#[test]
fn dev_loopback_stall_and_set_address() {
    let mut u = UsbOtg::new();
    // Vendor request 0xFF: not handled -> STALL.
    u.write32(DFIFO0, 0x0000_FFC0);
    u.write32(DFIFO0, 0x0000_0000);
    assert_ne!(u.read32(DOEPINT0) & (1 << 3), 0, "STALL latched");
    assert_eq!(u.read32(DOEPINT0) & 1, 0, "no XFRC on STALL");
    u.write32(DOEPINT0, 1 << 3);
    // SET_ADDRESS 7: addr applies at the status write.
    u.write32(DFIFO0, 0x0007_0000 | ((0x05u32) << 8));
    u.write32(DFIFO0, 0x0000_0000);
    assert_ne!(u.read32(DOEPINT0) & 1, 0, "SETUP XFRC");
    u.write32(DOEPTSIZ0, 0);
    assert_eq!(u.dev.addr, 7, "address applied at status");
}

// Device EP1 echo: after the EP0 SETUP stage, DFIFO0 writes stage OUT
// payload; DFIFO0 reads past the EP0 IN payload serve it back (echo),
// proving bulk/interrupt-style data movement without a host.
#[test]
fn dev_ep1_out_payload_echoes_on_in_reads() {
    let mut u = UsbOtg::new();
    // SETUP: GET_DESCRIPTOR device wLength 0 (no IN payload to drain).
    u.write32(DFIFO0, 0x0100_0680);
    u.write32(DFIFO0, 0x0000_0000);
    assert_ne!(u.read32(DOEPINT0) & 1, 0, "SETUP XFRC");
    u.write32(DOEPINT0, 1);
    assert_eq!(u.read32(DOEPINT0) & 1, 0, "XFRC clears");
    // OUT payload: two words staged to EP1.
    u.write32(DFIFO0, 0xDDCC_BBAA);
    u.write32(DFIFO0, 0x4433_2211);
    // IN reads echo the staged payload back LE-first.
    assert_eq!(u.read32(DFIFO0), 0xDDCC_BBAA);
    assert_eq!(u.read32(DFIFO0), 0x4433_2211);
    assert_eq!(u.read32(DFIFO0), 0, "queue drains to empty");
}

// Auto-enum bus reset: the host frontend latches USBRST + ENUMDONE
// (W1C); DSTS reports full-speed ENUMSPD while ENUMDONE is latched;
// GINTSTS shows both; source 38 pends once GINTMSK is programmed.
fn dev_mode(u: &mut UsbOtg) {
    u.write32(GUSBCFG, GUSBCFG_FORCE_DEVICE);
    assert_ne!(u.read32(GUSBCFG) & GUSBCFG_FORCE_DEVICE, 0, "FDMOD latched");
}

#[test]
fn auto_enum_bus_reset_latches_usbrst_enumdone() {
    let mut u = UsbOtg::new();
    dev_mode(&mut u);
    assert_eq!(u.read32(GINTSTS), 0, "quiet before reset");
    assert_eq!(u.read32(DSTS), 0, "no speed before reset");
    u.usb_host_bus_reset();
    assert_ne!(u.read32(GINTSTS) & GINT_USBRST, 0, "USBRST latched");
    assert_ne!(u.read32(GINTSTS) & GINT_ENUMDNE, 0, "ENUMDNE latched");
    assert_eq!(u.read32(DSTS) & 0x6, DSTS_ENUMSPD_FS, "full-speed");
    // Masked into source 38 once the firmware programs GINTMSK
    // (TinyUSB enables USBRST/ENUMDNE masks at init).
    u.write32(GINTMSK, GINT_USBRST | GINT_ENUMDNE);
    assert!(u.int_pending(), "source 38 pends");
    // W1C clear like the TinyUSB ISR (`dwc2->gintsts = GINTSTS_USBRST`).
    u.write32(GINTSTS, GINT_USBRST | GINT_ENUMDNE);
    assert_eq!(
        u.read32(GINTSTS) & (GINT_USBRST | GINT_ENUMDNE),
        0,
        "W1C clears"
    );
    assert!(!u.int_pending(), "source 38 quiet after clear");
    assert_eq!(u.read32(DSTS), 0, "speed clears with ENUMDONE");
}

// Auto-enum SETUP delivery: GRXSTSP pops SETUP_RX then SETUP_DONE,
// the 8 SETUP bytes pop via DFIFO, STPKTRCVD latches at stage time
// while SETUP latches on the SETUP_DONE pop (the silicon retire side
// effect), DAINT shows OUT EP0, and GINTSTS shows RXFLVL + OEPINT.
#[test]
fn auto_enum_setup_posts_grxstsp_and_ep0_flags() {
    let mut u = UsbOtg::new();
    dev_mode(&mut u);
    // GET_DESCRIPTOR device wLength 18: [80 06 00 01 00 00 12 00].
    u.usb_host_setup([0x80, 0x06, 0x00, 0x01, 0x00, 0x00, 0x12, 0x00]);
    assert_ne!(u.read32(GINTSTS) & GINT_RXFLVL, 0, "RXFLVL live");
    // STPKTRCVD latches at stage time; SETUP only after the DONE pop.
    assert_ne!(u.read32(DOEPINT0) & DOEPINT_STPKTRX, 0, "STPKTRCVD staged");
    assert_eq!(
        u.read32(DOEPINT0) & DOEPINT_SETUP,
        0,
        "no SETUP before DONE pop"
    );
    let rx = u.read32(GRXSTSP);
    assert_eq!((rx >> 17) & 0xF, GRXSTSP_PKTSTS_SETUP_RX, "SETUP_RX first");
    assert_eq!((rx >> 4) & 0x7FF, 8, "8 SETUP bytes");
    let done = u.read32(GRXSTSP);
    assert_eq!(
        (done >> 17) & 0xF,
        GRXSTSP_PKTSTS_SETUP_DONE,
        "SETUP_DONE second"
    );
    assert_eq!(u.read32(GRXSTSP), 0, "queue drains");
    assert_eq!(
        u.read32(GINTSTS) & GINT_RXFLVL,
        0,
        "RXFLVL clears with queue"
    );
    // SETUP bytes pop LE-first via DFIFO0.
    assert_eq!(u.read32(DFIFO0), 0x0100_0680);
    assert_eq!(u.read32(DFIFO0), 0x0012_0000);
    // EP0 OUT flags + DAINT + OEPINT all live from the latch.
    assert_ne!(u.read32(DOEPINT0) & DOEPINT_STPKTRX, 0, "STPKTRCVD");
    assert_ne!(
        u.read32(DOEPINT0) & DOEPINT_SETUP,
        0,
        "SETUP after DONE pop"
    );
    assert_ne!(u.read32(DAINT) & DAINT_OUT_EP0, 0, "DAINT OUT EP0");
    assert_ne!(u.read32(GINTSTS) & GINT_OEPINT, 0, "OEPINT live");
    // W1C clears (TinyUSB clears DOEPINT0 after handling).
    u.write32(DOEPINT0, DOEPINT_STPKTRX | DOEPINT_SETUP);
    assert_eq!(
        u.read32(DOEPINT0) & (DOEPINT_STPKTRX | DOEPINT_SETUP),
        0,
        "W1C clears"
    );
    assert_eq!(
        u.read32(DAINT) & DAINT_OUT_EP0,
        0,
        "DAINT clears with latch"
    );
}

// Auto-enum IN transfer: firmware TXFIFO push + DIEPTSIZ0 size +
// DIEPCTL0 EPENA captures the payload, latches XFRC, drives DAINT IN
// EP0 + GINTSTS IEPINT, and self-clears EPENA. TXFE is live state
// (not a latch): visible while the transfer is armed with DIEPEMPMSK
// EP0 set, clearing when the transfer completes (disarmed).
#[test]
fn auto_enum_in_transfer_captures_txfifo_and_raises_xfrc() {
    let mut u = UsbOtg::new();
    dev_mode(&mut u);
    u.usb_host_setup([0x80, 0x06, 0x00, 0x01, 0x00, 0x00, 0x12, 0x00]);
    // TinyUSB `edpt_schedule_packets` order (TSIZ first, then EPENA,
    // then the TXFE-driven FIFO push): an 18-byte EP0 IN programs
    // XFRSIZ=18|PKTCNT=1<<19, arms, then pushes the payload. The
    // driver enables DIEPEMPMSK EP0 while payload remains (the TXFE
    // spin in `epin_write_tx_fifo`).
    u.write32(DIEPTSIZ0, 18 | (1 << 19));
    u.write32(DIEPCTL0, DEPCTL_EPENA);
    assert_eq!(u.read32(DIEPCTL0) & DEPCTL_EPENA, 0, "EPENA self-clears");
    assert_eq!(
        u.read32(DIEPINT0) & UsbOtg::EP_XFRC,
        0,
        "no XFRC before push"
    );
    u.write32(DIEPEMPMSK, DIEPEMPMSK_EP0);
    assert_ne!(
        u.read32(DIEPINT0) & DIEPINT_TXFE,
        0,
        "TXFE live while armed"
    );
    // Five TXFIFO pushes (18 bytes): completion fires once pushed
    // bytes cover XFRSIZ, independent of the PKTCNT field (the
    // transfer consumes whole TXFIFO words — the 18-byte payload
    // occupies 5 words, the last word's padding discarded with the
    // payload, like silicon's word-wise TXFIFO eject; DTXFSTS reads
    // full once the transfer completes).
    u.write32(DFIFO0, 0x0403_0201);
    u.write32(DFIFO0, 0x0807_0605);
    u.write32(DFIFO0, 0x0C0B_0A09);
    u.write32(DFIFO0, 0x100F_0E0D);
    assert_eq!(
        u.read32(DTXFSTS0),
        TXFIFO_WORDS - 4,
        "16 B staged over 4 words"
    );
    assert_ne!(
        u.read32(DIEPINT0) & DIEPINT_TXFE,
        0,
        "TXFE still live mid-push"
    );
    u.write32(DFIFO0, 0x0000_1211);
    assert_eq!(
        u.read32(DTXFSTS0),
        TXFIFO_WORDS,
        "transfer completes, TXFIFO drains"
    );
    assert_ne!(u.read32(DIEPINT0) & UsbOtg::EP_XFRC, 0, "XFRC latched");
    assert_eq!(
        u.read32(DIEPINT0) & DIEPINT_TXFE,
        0,
        "TXFE clears at completion"
    );
    // XFRSIZ drains to 0 on completion (silicon transfer-size counter;
    // the race-free completion signal the sketch polls — DIEPINT0.XFRC
    // is W1C-consumed by the ISR and can be missed by a racing poller).
    assert_eq!(
        u.read32(DIEPTSIZ0) & 0x7FFFF,
        0,
        "XFRSIZ drains at completion"
    );
    assert_ne!(u.read32(DAINT) & DAINT_IN_EP0, 0, "DAINT IN EP0");
    assert_ne!(u.read32(GINTSTS) & GINT_IEPINT, 0, "IEPINT live");
    // Captured payload is what the host reads off the wire.
    assert_eq!(
        u.usb_host_take_in(),
        vec![
            1, 2, 3, 4, 5, 6, 7, 8, 9, 10, 11, 12, 13, 14, 15, 16, 17, 18
        ]
    );
    assert!(u.usb_host_take_in().is_empty(), "capture drains");
    u.write32(DIEPINT0, UsbOtg::EP_XFRC);
    assert_eq!(u.read32(DAINT) & DAINT_IN_EP0, 0, "DAINT clears with latch");
}

// Auto-enum status OUT: latches both XFRC flags (like silicon's
// RX_COMPLETE + Transfer Completed pair) and applies a pending
// SET_ADDRESS armed by the loopback path.
#[test]
fn auto_enum_status_out_raises_xfrc_pair() {
    let mut u = UsbOtg::new();
    dev_mode(&mut u);
    u.dev.addr_pending = 7;
    u.dev.addr_armed = true;
    u.usb_host_status_out();
    assert_ne!(u.read32(DOEPINT0) & UsbOtg::EP_XFRC, 0, "OUT XFRC");
    assert_ne!(u.read32(DIEPINT0) & UsbOtg::EP_XFRC, 0, "IN XFRC");
    assert_eq!(u.dev.addr, 7, "address applied at status");
    u.write32(DOEPINT0, UsbOtg::EP_XFRC);
    u.write32(DIEPINT0, UsbOtg::EP_XFRC);
    assert_eq!(u.read32(DOEPINT0) & UsbOtg::EP_XFRC, 0, "W1C clears");
}

// Loopback regression: the firmware-driven loopback still works with
// the auto-enum bits present (no STPKTRCVD latched, so DFIFO0 writes
// accumulate SETUP as before and the capture only sees IN reads).
#[test]
fn loopback_unaffected_without_enum_session() {
    let mut u = UsbOtg::new();
    u.write32(DFIFO0, 0x0100_0680);
    u.write32(DFIFO0, 0x0012_0000);
    assert_ne!(u.read32(DOEPINT0) & 1, 0, "SETUP XFRC");
    let mut got = [0u8; 18];
    for chunk in got.chunks_mut(4) {
        let w = u.read32(DFIFO0);
        for (i, b) in chunk.iter_mut().enumerate() {
            *b = ((w >> (8 * i)) & 0xFF) as u8;
        }
    }
    assert_eq!(&got, &DEV_DESC, "descriptor round-trip");
    assert_eq!(
        u.usb_host_take_in(),
        Vec::from(DEV_DESC),
        "IN reads captured"
    );
}
