use esp32s3_soc::memmap::{WIFI_ARD_POOL, WIFI_SCRATCH};
use esp32s3_soc::soc::fixture::{
    ARD_DISCONNECTED, ARD_GOT_IP, REASON_ASSOC_LEAVE, STA_CONNECTED_ID, STA_DISCONNECTED_ID,
};
use esp32s3_soc::soc::net::{ARDUINO_NAME, SCAN_DONE_ID};
use esp32s3_soc::soc::rtos::{SCAN_DONE_BIT, SYS_EVT, WOKEN_BITS};
use esp32s3_soc::soc::Soc;
use esp32s3_soc::wifi::SCAN_DWELL_TICKS;

/// Linked addresses of the station image.
const CONNECT: u32 = 0x4203_c7c4;
const NETWORK_CELL: u32 = 0x3fc9_ae6c;
const READY_LISTS: u32 = 0x3fc9_b8dc;

const PRIO: u32 = 20;
const SYS: u32 = 0x3FCA_0000;
const ARD: u32 = 0x3FCB_0000;

/// Where a queue, its storage and its task stand.
fn ring(base: u32) -> u32 {
    base + 0x1000
}

fn task(base: u32) -> u32 {
    base + 0x2000
}

fn list_of(s: &mut Soc, list: u32, item: u32, owner: u32) {
    s.write32(list, 1);
    s.write32(list + 12, item);
    s.write32(list + 16, item);
    s.write32(item + 4, list + 8);
    s.write32(item + 8, list + 8);
    s.write32(item + 12, owner);
    s.write32(item + 16, list);
}

/// The task waits at its queue, without a timeout.
fn wait(s: &mut Soc, base: u32) {
    list_of(s, base + 36, task(base) + 24, task(base));
    s.write32(task(base) + 20, 0);
}

fn queue(s: &mut Soc, base: u32, name: &[u8; 8], len: u32, item_size: u32) {
    s.write32(base, ring(base));
    s.write32(base + 4, ring(base));
    s.write32(base + 8, ring(base) + len * item_size);
    s.write32(base + 60, len);
    s.write32(base + 64, item_size);
    s.write32(task(base) + 44, PRIO);
    for i in 0..8u32 {
        s.write8(task(base) + 52 + i, name[i as usize] as u32);
    }
    wait(s, base);
}

/// A booted station image with both event tasks waiting.
fn station() -> Soc {
    let mut s = Soc::new();
    s.wifi_fixture_image(true);
    queue(&mut s, SYS, &SYS_EVT, 4, 16);
    queue(&mut s, ARD, &ARDUINO_NAME, 32, 4);
    let list = READY_LISTS + 20 * PRIO;
    s.write32(list + 12, list + 8);
    s.write32(list + 16, list + 8);
    s.write32(NETWORK_CELL, 0x3FCC_0000);
    s.write32(0x3FCC_0004, 0x3FCC_0100);
    s
}

fn dump(s: &mut Soc, at: u32, n: u32) -> Vec<u8> {
    (0..n).map(|i| s.read8(at + i) as u8).collect()
}

#[test]
fn station_run_connects_and_gets_its_address() {
    let mut s = station();
    s.wifi_fixture_sta("");
    s.wifi_fixture_poll(0, 0);
    assert_eq!(s.read32(SYS + 56), 0);
    s.wifi_fixture_poll(0, CONNECT);
    // The event loop has the connection, with the fallback access point.
    assert_eq!(s.read32(SYS + 56), 1);
    assert_eq!(s.read32(ring(SYS) + 8), STA_CONNECTED_ID);
    assert_eq!(s.read32(ring(SYS) + 12), WIFI_SCRATCH);
    assert_eq!(dump(&mut s, WIFI_SCRATCH, 7), b"EmuNet\0".to_vec());
    assert_eq!(
        dump(&mut s, WIFI_SCRATCH + 32, 9),
        vec![6, 0x02, 0x11, 0x22, 0x33, 0x44, 0x55, 6, 3]
    );
    // The application has the address.
    assert_eq!(s.read32(ring(ARD)), WIFI_ARD_POOL);
    assert_eq!(s.read32(WIFI_ARD_POOL), ARD_GOT_IP);
    assert_eq!(s.read32(WIFI_ARD_POOL + 4), 0x3FCC_0100);
    assert_eq!(dump(&mut s, WIFI_ARD_POOL + 8, 4), vec![192, 168, 4, 2]);
    // Both tasks are ready, and the run posts nothing twice.
    assert_eq!(s.read32(READY_LISTS + 20 * PRIO), 2);
    s.wifi_fixture_poll(CONNECT, CONNECT);
    assert_eq!(s.read32(SYS + 56), 1);
    assert_eq!(s.read32(ARD + 56), 1);
}

#[test]
fn disconnect_follows_both_reads() {
    let mut s = station();
    s.wifi_fixture_sta("Cafe,-61,3,0A:0B:0C:0D:0E:0F");
    s.wifi_fixture_poll(CONNECT, 0);
    // Too early: the access-point data has not been read.
    s.wifi_notify_disconnect();
    s.wifi_fixture_poll(0, 0);
    assert!(s.wifi_hook_get_ap_info(0x3FCD_0000));
    assert!(s.wifi_hook_get_ap_info(0x3FCD_0000));
    assert_eq!(dump(&mut s, 0x3FCD_0006, 4), b"Cafe".to_vec());
    s.write32(ARD + 56, 0);
    wait(&mut s, SYS);
    wait(&mut s, ARD);
    s.wifi_fixture_poll(0, 0);
    assert_eq!(s.read32(SYS + 56), 1);
    s.wifi_notify_disconnect();
    s.wifi_fixture_poll(0, 0);
    assert_eq!(s.read32(SYS + 56), 2);
    assert_eq!(s.read32(ring(SYS) + 16 + 8), STA_DISCONNECTED_ID);
    let data = s.read32(ring(SYS) + 16 + 12);
    assert_eq!(data, WIFI_SCRATCH + 64);
    assert_eq!(s.read8(data + 39) as u8, REASON_ASSOC_LEAVE);
    assert_eq!(s.read32(WIFI_ARD_POOL + 192), ARD_DISCONNECTED);
    assert_eq!(s.read32(ring(ARD) + 4), WIFI_ARD_POOL + 192);
}

#[test]
fn connection_is_posted_again_after_the_dwell() {
    let mut s = station();
    s.write32(SYS + 48, SYS + 44);
    s.wifi_fixture_sta("");
    s.wifi_fixture_poll(CONNECT, 0);
    assert_eq!(s.read32(SYS + 56), 0);
    wait(&mut s, SYS);
    s.wifi_fixture_poll(0, 0);
    assert_eq!(s.read32(SYS + 56), 0);
    s.tick_timers(SCAN_DWELL_TICKS);
    s.wifi_fixture_poll(0, 0);
    assert_eq!(s.read32(SYS + 56), 1);
}

#[test]
fn scan_event_is_posted_without_data() {
    let mut s = station();
    s.write32(0x3FCC_0200, 0x1234);
    assert_eq!(s.wifi_scan_post_event(0x3FCC_0200), Some(task(SYS)));
    assert_eq!(s.read32(ring(SYS) + 4), 0x1234);
    assert_eq!(s.read32(ring(SYS) + 8), SCAN_DONE_ID);
    assert_eq!(s.read32(ring(SYS) + 12), 0);
}

#[test]
fn scan_done_wakes_the_waiters_of_the_group() {
    let mut s = Soc::new();
    let (network, group, item) = (0x3FCA_0000, 0x3FCA_0100, 0x3FCB_0018);
    assert_eq!(s.wifi_scan_complete_empty(network), None);
    s.write32(network + 4, group);
    list_of(&mut s, group + 4, item, 0x3FCB_0000);
    // It waits for another bit.
    s.write32(item, 0x1);
    assert_eq!(s.wifi_scan_complete_empty(network), None);
    assert_eq!(s.read32(group), SCAN_DONE_BIT);
    s.write32(item, SCAN_DONE_BIT);
    assert_eq!(s.wifi_scan_complete_empty(network), Some(0x3FCB_0000));
    assert_eq!(s.read32(item), SCAN_DONE_BIT | WOKEN_BITS);
    assert_eq!(s.read32(group + 4), 0);
    assert_eq!(s.read32(item + 16), 0);
}

#[test]
fn scan_dwell_is_told_once() {
    let mut s = Soc::new();
    s.wifi_scan_begin();
    assert!(!s.wifi_scan_tick_complete());
    s.tick_timers(SCAN_DWELL_TICKS);
    assert!(s.wifi_scan_tick_complete());
    assert!(!s.wifi_scan_tick_complete());
}

#[test]
fn layout_is_put_in_force_again() {
    let mut s = station();
    s.wifi_layout_set(None, None, Some(0x3FCC_0300), None, None);
    assert_eq!(s.wifi_sta_netif(), 0);
    s.wifi_fixture_layout_reapply();
    assert_eq!(s.wifi_sta_netif(), 0x3FCC_0100);
}
