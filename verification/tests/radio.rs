use esp32s3_soc::memmap::{FE_BASE, WIFI_MAC_BASE, WIFI_MAC_CTRL_BASE};
use esp32s3_soc::scan_fixture::{parse_scan_fixture, parse_scan_fixtures, MAX_FIXTURES};
use esp32s3_soc::wifi::{
    Wifi, FE_IQ_EST_DONE_BITS, FE_IQ_EST_DONE_OFF, MAC_CTRL_READY_BIT, MAC_CTRL_READY_OFF,
    MAC_REV_OFF, MAC_REV_VAL, SCAN_DWELL_TICKS, TXDC_DONE_BIT,
};

#[test]
fn status_bits_read_as_done() {
    let mut w = Wifi::new();
    assert_eq!(w.read32(FE_BASE, FE_IQ_EST_DONE_OFF), FE_IQ_EST_DONE_BITS);
    assert_eq!(w.read32(WIFI_MAC_BASE, MAC_REV_OFF), MAC_REV_VAL);
    assert_eq!(w.read32(WIFI_MAC_CTRL_BASE, MAC_CTRL_READY_OFF), 0);
    w.write32(WIFI_MAC_CTRL_BASE, MAC_CTRL_READY_OFF, 0);
    assert_eq!(
        w.read32(WIFI_MAC_CTRL_BASE, MAC_CTRL_READY_OFF),
        MAC_CTRL_READY_BIT
    );
}

#[test]
fn radio_registers_read_back() {
    let mut w = Wifi::new();
    w.write32(FE_BASE, 0x40, 0x1234_5678);
    assert_eq!(w.read32(FE_BASE, 0x40), 0x1234_5678);
    assert_eq!(w.read32(WIFI_MAC_BASE, 0x40), 0);
    assert_eq!(w.read32(0x1234_0000, 0x40), 0);
}

#[test]
fn scan_is_reported_once_after_its_dwell() {
    let mut w = Wifi::new();
    assert!(!w.scan_tick_complete());
    w.wifi_scan_begin();
    w.tick(SCAN_DWELL_TICKS - 1);
    assert!(!w.scan_tick_complete());
    w.tick(1);
    assert!(w.scan_tick_complete());
    assert!(!w.scan_tick_complete());
}

#[test]
fn calibration_reports_done_once_per_write() {
    let mut w = Wifi::new();
    assert_eq!(w.txdc_read(0x55), 0x55);
    w.txdc_write(0);
    assert_eq!(w.txdc_read(0x55), 0x55 | TXDC_DONE_BIT);
    assert_eq!(w.txdc_read(0x55), 0x55);
}

#[test]
fn fixture_fields_are_parsed() {
    let ap = parse_scan_fixture("EmuNet,-50,6,02:11:22:33:44:55").unwrap();
    assert_eq!(&ap.ssid[..6], b"EmuNet");
    assert!(ap.ssid[6..].iter().all(|b| *b == 0));
    assert_eq!(ap.ssid_len, 6);
    assert_eq!(ap.rssi, -50);
    assert_eq!(ap.chan, 6);
    assert_eq!(ap.bssid, [0x02, 0x11, 0x22, 0x33, 0x44, 0x55]);
}

#[test]
fn garbled_fixtures_are_skipped() {
    assert!(parse_scan_fixture("").is_none());
    assert!(parse_scan_fixture("OnlyName").is_none());
    assert!(parse_scan_fixture("Net,-50,0,02:11:22:33:44:55").is_none());
    assert!(parse_scan_fixture("Net,-50,15,02:11:22:33:44:55").is_none());
    assert!(parse_scan_fixture("Net,-50,6").is_none());
    assert!(parse_scan_fixture(",-50,6,02:11:22:33:44:55").is_none());
    let aps = parse_scan_fixtures("A,-40,1,020000000001;bad;B,-60,11,020000000002");
    assert_eq!(aps.len(), 2);
    assert_eq!(aps[0].ssid[0], b'A');
    assert_eq!(aps[1].ssid[0], b'B');
    assert_eq!(aps[1].chan, 11);
}

#[test]
fn fixture_addresses_pad_and_cut() {
    let short = parse_scan_fixture("Net,-50,6,02:11:22:33:44").unwrap();
    assert_eq!(short.bssid, [0x02, 0x11, 0x22, 0x33, 0x44, 0x00]);
    let odd = parse_scan_fixture("Net,-50,6,02-11-2").unwrap();
    assert_eq!(odd.bssid, [0x02, 0x11, 0x20, 0x00, 0x00, 0x00]);
    let long = parse_scan_fixture("Net,-50,6,02:11:22:33:44:55:66").unwrap();
    assert_eq!(long.bssid, [0x02, 0x11, 0x22, 0x33, 0x44, 0x55]);
}

#[test]
fn fixture_list_is_capped() {
    let list = vec!["N,-40,1,020000000001"; MAX_FIXTURES + 3].join(";");
    assert_eq!(parse_scan_fixtures(&list).len(), MAX_FIXTURES);
}
