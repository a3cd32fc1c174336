use esp32s3_soc::memmap::{WIFI_ARD_POOL, WIFI_SCRATCH};
use esp32s3_soc::scan_fixture::parse_scan_fixture;
use esp32s3_soc::soc::fixture::ARD_GOT_IP;
use esp32s3_soc::soc::net::{ARDUINO_NAME, REC_SIZE};
use esp32s3_soc::soc::rtos::SYS_EVT;
use esp32s3_soc::soc::Soc;
use esp32s3_soc::wifi::SCAN_DWELL_TICKS;

const QUEUE: u32 = 0x3FC9_2000;
const RING: u32 = 0x3FC9_3000;
const TASK: u32 = 0x3FC9_4000;
const EVENT_ITEM: u32 = TASK + 24;
const STATE_ITEM: u32 = TASK + 4;
const DELAYED: u32 = 0x3FC9_5000;
const BASE_VAR: u32 = 0x3FC9_5100;
const EVENT_BASE: u32 = 0x3C0B_1234;
const LISTS: u32 = 0x3FC9_6000;
const TOP: u32 = 0x3FC9_6800;
const CURRENT: u32 = 0x3FC9_6900;
const PRIO: u32 = 20;
const AP: &str = "HomeNet,-42,11,02:AA:BB:CC:DD:EE";

/// A list with the given item as its only one.
fn list_of(s: &mut Soc, list: u32, item: u32) {
    s.write32(list, 1);
    s.write32(list + 12, item);
    s.write32(list + 16, item);
    s.write32(item + 4, list + 8);
    s.write32(item + 8, list + 8);
    s.write32(item + 12, TASK);
    s.write32(item + 16, list);
}

/// A queue on which a delayed task of the given name waits.
fn waiting(name: &[u8; 8], len: u32, item_size: u32) -> Soc {
    let mut s = Soc::new();
    s.write32(QUEUE, RING);
    s.write32(QUEUE + 4, RING);
    s.write32(QUEUE + 8, RING + 2 * item_size);
    s.write32(QUEUE + 60, len);
    s.write32(QUEUE + 64, item_size);
    list_of(&mut s, QUEUE + 36, EVENT_ITEM);
    list_of(&mut s, DELAYED, STATE_ITEM);
    s.write32(TASK + 44, PRIO);
    for i in 0..8u32 {
        s.write8(TASK + 52 + i, name[i as usize] as u32);
    }
    s.write32(BASE_VAR, EVENT_BASE);
    let list = LISTS + 20 * PRIO;
    s.write32(list + 12, list + 8);
    s.write32(list + 16, list + 8);
    s
}

fn dump(s: &mut Soc, at: u32, n: u32) -> Vec<u8> {
    (0..n).map(|i| s.read8(at + i) as u8).collect()
}

#[test]
fn event_task_and_queue_are_found() {
    let mut s = waiting(&SYS_EVT, 4, 16);
    assert_eq!(s.find_task_by_name(&SYS_EVT), Some(TASK));
    assert_eq!(s.find_task_by_name(b"nobody\0\0"), None);
    assert_eq!(s.sys_evt_queue(), QUEUE);
    assert!(s.queue_recv_waiting(QUEUE));
    assert_eq!(Soc::new().sys_evt_queue(), 0);
}

#[test]
fn posted_event_is_queued_and_wakes_the_task() {
    let mut s = waiting(&SYS_EVT, 4, 16);
    assert_eq!(s.wifi_post_event(BASE_VAR, 4), Some(TASK));
    assert_eq!(s.read32(QUEUE + 56), 1);
    assert_eq!(s.read32(QUEUE + 4), RING + 16);
    assert_eq!(s.read32(RING), 0);
    assert_eq!(s.read32(RING + 4), EVENT_BASE);
    assert_eq!(s.read32(RING + 8), 4);
    assert_eq!(s.read32(RING + 12), 0);
    // Both items have left their lists.
    assert_eq!(s.read32(QUEUE + 36), 0);
    assert_eq!(s.read32(QUEUE + 48), QUEUE + 44);
    assert_eq!(s.read32(EVENT_ITEM + 16), 0);
    assert_eq!(s.read32(DELAYED), 0);
    assert_eq!(s.read32(STATE_ITEM + 16), 0);
    assert!(!s.queue_recv_waiting(QUEUE));
}

#[test]
fn event_data_goes_to_the_scratch_area() {
    let mut s = waiting(&SYS_EVT, 4, 16);
    assert_eq!(s.wifi_post_event_with_data(BASE_VAR, 5, &[7, 8, 9]), Some(TASK));
    assert_eq!(dump(&mut s, WIFI_SCRATCH, 4), vec![7, 8, 9, 0]);
    assert_eq!(s.read32(RING), 0x0000_0100);
    assert_eq!(s.read32(RING + 8), 5);
    assert_eq!(s.read32(RING + 12), WIFI_SCRATCH);
    // Nobody waits any more: nothing is written.
    assert_eq!(s.wifi_post_event_with_data(BASE_VAR, 6, &[1]), None);
    assert_eq!(s.read32(QUEUE + 56), 1);
}

#[test]
fn full_queue_and_wrong_size_are_refused() {
    let mut s = waiting(&SYS_EVT, 1, 16);
    assert!(!s.queue_post_raw(QUEUE, &[0; 15]));
    assert!(s.queue_post_raw(QUEUE, &[1; 16]));
    assert!(!s.queue_post_raw(QUEUE, &[2; 16]));
    assert_eq!(dump(&mut s, RING, 2), vec![1, 1]);
}

#[test]
fn queue_storage_wraps() {
    let mut s = waiting(&SYS_EVT, 4, 16);
    assert!(s.queue_post_raw(QUEUE, &[1; 16]));
    assert!(s.queue_post_raw(QUEUE, &[2; 16]));
    assert_eq!(s.read32(QUEUE + 4), RING);
    assert!(s.queue_post_raw(QUEUE, &[3; 16]));
    assert_eq!(s.read8(RING), 3);
    assert_eq!(s.read8(RING + 16), 2);
}

#[test]
fn woken_task_becomes_the_last_ready_one() {
    let mut s = waiting(&SYS_EVT, 4, 16);
    s.wifi_layout_set(None, Some(CURRENT), None, None, None);
    s.write32(CURRENT, 0x3FC9_7000);
    s.write32(0x3FC9_7000 + 44, 1);
    let woken = s.queue_unblock_receiver(QUEUE).unwrap();
    s.ready_task_on_list(woken, LISTS, TOP);
    let list = LISTS + 20 * PRIO;
    assert_eq!(s.read32(list), 1);
    assert_eq!(s.read32(list + 16), STATE_ITEM);
    assert_eq!(s.read32(STATE_ITEM + 4), list + 8);
    assert_eq!(s.read32(STATE_ITEM + 16), list);
    assert_eq!(s.read32(TOP), PRIO);
    // The first core runs a lower priority and is asked to switch.
    assert_eq!(s.int_sources(0), 1u128 << 79);
    assert_eq!(s.int_sources(1), 0);
}

#[test]
fn application_event_is_posted() {
    let mut s = waiting(&ARDUINO_NAME, 32, 4);
    let mut info = [0u8; 44];
    info[0] = 0x5A;
    assert!(s.wifi_ard_idle());
    assert_eq!(s.wifi_ard_queue_discover(), QUEUE);
    assert!(s.wifi_ard_post(ARD_GOT_IP, &info, LISTS, TOP));
    assert_eq!(s.read32(RING), WIFI_ARD_POOL);
    assert_eq!(s.read32(WIFI_ARD_POOL), ARD_GOT_IP);
    assert_eq!(s.read8(WIFI_ARD_POOL + 4), 0x5A);
    assert_eq!(s.read32(LISTS + 20 * PRIO), 1);
    assert!(!s.wifi_ard_idle());
    assert!(s.wifi_ard_free(WIFI_ARD_POOL));
    assert!(!s.wifi_ard_free(WIFI_ARD_POOL + 4));
    // Nobody waits: the second post is refused and uses no block.
    assert!(!s.wifi_ard_post(ARD_GOT_IP, &info, LISTS, TOP));
    assert_eq!(s.read32(WIFI_ARD_POOL + 192), 0);
}

#[test]
fn application_queue_without_storage_uses_no_block() {
    let mut s = waiting(&ARDUINO_NAME, 32, 4);
    s.write32(QUEUE, 0);
    assert_eq!(s.wifi_ard_queue_discover(), QUEUE);
    assert!(!s.wifi_ard_post(ARD_GOT_IP, &[1; 44], LISTS, TOP));
    assert_eq!(s.read32(WIFI_ARD_POOL), 0);
    s.write32(QUEUE, RING);
    assert!(s.wifi_ard_post(ARD_GOT_IP, &[1; 44], LISTS, TOP));
    assert_eq!(s.read32(RING), WIFI_ARD_POOL);
}

#[test]
fn hooks_answer_what_was_staged() {
    let mut s = Soc::new();
    let out = 0x3FC9_1000;
    assert!(!s.wifi_hook_get_ip_info(out));
    assert!(!s.wifi_hook_get_ap_info(out));
    assert!(!s.wifi_hook_disconnect());
    let ap = parse_scan_fixture(AP).unwrap();
    s.wifi_stage_sta_data(&ap, [10, 0, 0, 7]);
    assert!(s.wifi_hook_get_ip_info(out));
    assert_eq!(
        dump(&mut s, out, 12),
        vec![10, 0, 0, 7, 255, 255, 255, 0, 192, 168, 4, 1]
    );
    assert!(s.wifi_hook_get_ap_info(out));
    assert!(!s.wifi_hook_rssi_done());
    assert!(s.wifi_hook_get_ap_info(out));
    assert!(s.wifi_hook_rssi_done());
    assert_eq!(dump(&mut s, out, 6), vec![0x02, 0xAA, 0xBB, 0xCC, 0xDD, 0xEE]);
    assert_eq!(dump(&mut s, out + 6, 8), b"HomeNet\0".to_vec());
    assert_eq!(s.read8(out + 39), 11);
    assert_eq!(s.read8(out + 44), 0xD6);
    assert!(s.wifi_hook_disconnect());
    s.wifi_notify_disconnect();
    assert!(s.wifi_take_disconnect());
    assert!(!s.wifi_take_disconnect());
}

#[test]
fn scan_record_is_laid_out() {
    let mut s = Soc::new();
    let out = 0x3FC9_1000;
    s.wifi_scan_record_ap(out, 1, &parse_scan_fixture(AP).unwrap());
    let rec = out + REC_SIZE;
    assert_eq!(s.read8(rec), 0x02);
    assert_eq!(dump(&mut s, rec + 6, 7), b"HomeNet".to_vec());
    assert_eq!(s.read8(rec + 39), 11);
    assert_eq!(s.read32(rec + 48), 3);
    assert_eq!(s.read32(rec + 52), 4);
}

#[test]
fn scan_run_hands_over_its_records() {
    let mut s = Soc::new();
    s.wifi_fixture_image(false);
    assert_eq!(s.wifi_fixture_records_pc(), 0);
    s.wifi_fixture_scan(AP);
    assert_eq!(s.wifi_fixture_records_pc(), 0x4200_3ee0);
    s.wifi_fixture_poll(0x4206_3b90, 0);
    assert_eq!(s.read16(0x3fc9_f93e), 0);
    s.tick_timers(SCAN_DWELL_TICKS);
    s.wifi_fixture_poll(0, 0);
    assert_eq!(s.read16(0x3fc9_f93e), 1);
    assert!(!s.wifi_fixture_records_staged());
    // No buffer yet.
    s.wifi_fixture_poll(0x4200_3ee0, 0);
    assert!(!s.wifi_fixture_records_staged());
    s.write32(0x3fc9_aef0, 0x3FCA_0000);
    s.wifi_fixture_poll(0, 0x4200_3ee0);
    assert!(s.wifi_fixture_records_staged());
    assert_eq!(dump(&mut s, 0x3FCA_0006, 7), b"HomeNet".to_vec());
    assert_eq!(s.read16(0x3fc9_aef4), 1);
}

#[test]
fn station_interface_is_followed() {
    let mut s = Soc::new();
    assert_eq!(s.wifi_sta_netif(), 0);
    s.wifi_layout_set(None, None, Some(0x3FC9_0000), None, None);
    assert_eq!(s.wifi_sta_netif(), 0);
    s.write32(0x3FC9_0000, 0x3FC9_0100);
    s.write32(0x3FC9_0104, 0x3FC9_0200);
    assert_eq!(s.wifi_sta_netif(), 0x3FC9_0200);
}

const HEAP: u32 = 0x3FC9_0200;
const HANDLE: u32 = 0x3FC9_0300;
const CONTROL: u32 = HANDLE + 20;
const SL_MAPS: u32 = 0x3FC9_0400;
const HEADS: u32 = 0x3FC9_0500;
const BLOCK: u32 = 0x3FC9_1000;

/// A heap whose one free block has 256 bytes. Sixteen lists to a class, and
/// sizes below 128 share the first.
fn heap() -> Soc {
    let mut s = Soc::new();
    s.wifi_layout_set(Some(0x3FC9_0100), None, None, None, None);
    s.write32(0x3FC9_0100, HEAP);
    s.write32(HEAP, 0x1004);
    s.write32(HEAP + 28, HANDLE);
    s.write32(CONTROL + 16, (7 << 5) | (16 << 14) | (128 << 23));
    s.write32(CONTROL + 24, 1 << 2);
    s.write32(CONTROL + 28, SL_MAPS);
    s.write32(CONTROL + 32, HEADS);
    s.write32(SL_MAPS + 8, 1);
    s.write32(HEADS + 4 * 32, BLOCK);
    s.write32(BLOCK + 4, 256 | 1);
    s.write32(BLOCK + 8, CONTROL);
    s.write32(BLOCK + 12, CONTROL);
    s
}

#[test]
fn allocation_splits_the_block() {
    let mut s = heap();
    assert_eq!(s.wifi_heap_carve(20), BLOCK + 12);
    // Twenty bytes are in use, and the rest is free behind its header.
    assert_eq!(s.read32(BLOCK + 4), 20);
    let rest = BLOCK + 24;
    assert_eq!(s.read32(rest + 4), 232 | 1);
    // The rest is the first block of list 13 of class 1.
    assert_eq!(s.read32(HEADS + 4 * (16 + 13)), rest);
    assert_eq!(s.read32(SL_MAPS + 4), 1 << 13);
    assert_eq!(s.read32(CONTROL + 24), 0b110);
    assert_eq!(s.wifi_heap_carve(100), rest + 12);
    assert_eq!(s.read32(rest + 4), 100);
}

#[test]
fn allocation_fails_without_room() {
    let mut s = heap();
    assert_eq!(s.wifi_heap_carve(300), 0);
    assert_eq!(s.read32(BLOCK + 4), 257);
    assert_eq!(s.wifi_heap_carve(0xFFFF_FFFF), 0);
    assert_eq!(Soc::new().wifi_heap_carve(16), 0);
    let mut other = heap();
    other.write32(HEAP, 0x4);
    assert_eq!(other.wifi_heap_carve(16), 0);
}

#[test]
fn heap_without_small_classes_is_served() {
    let mut s = heap();
    // No size is small, and there are more lists to a class than a word has bits.
    s.write32(CONTROL + 16, (7 << 5) | (40 << 14) | (12 << 23));
    s.write32(CONTROL + 24, 1 << 2);
    s.write32(SL_MAPS + 8, 1);
    s.write32(HEADS + 4 * (2 * 40), BLOCK);
    assert_eq!(s.wifi_heap_carve(64), BLOCK + 12);
    let mut t = heap();
    // Small sizes cannot be told apart.
    t.write32(CONTROL + 16, (7 << 5) | (128 << 23));
    assert_eq!(t.wifi_heap_carve(20), 0);
}
