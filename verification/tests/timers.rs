use esp32s3_soc::systimer::{
    Systimer, COMP_LOAD, CONF, DATE, DATE_VALUE, OP0, OP_UPDATE, OP_VALUE_VALID, TARGET_CONF,
    TARGET_HI, TARGET_LO, TARGET_WORK_EN, UNIT0_WORK_EN, VALUE_HI0, VALUE_LO0,
};
use esp32s3_soc::timg::{
    Timg, CALI_RDY, CALI_START, CFG_ALARM, CFG_EN, CFG_INCREASE, INT_CLR, INT_ENA, INT_RAW, INT_T0,
    INT_WDT, RTCCALICFG, T0ALARMHI, T0ALARMLO, T0CONFIG, T0LO, T0LOAD, T0LOADHI, T0LOADLO, T0UPDATE,
    WDT_CONFIG0, WDT_CONFIG1, WDT_CONFIG2, WDT_EN, WDT_FEED, WDT_STG_SHIFT, WDT_WKEY, WDT_WPROTECT,
};
use esp32s3_soc::touch::{Touch, TOUCH_CHN_ST_OFF, TOUCH_STATUS_BASE, TOUCH_THRES_BASE};

fn running(div: u32) -> Timg {
    let mut t = Timg::new();
    t.write32(T0CONFIG, CFG_EN | CFG_INCREASE | (div << 13));
    t
}

#[test]
fn timer_counts_once_per_divider() {
    let mut t = running(4);
    t.tick(39);
    t.write32(T0UPDATE, 1);
    assert_eq!(t.read32(T0LO), 9);
    t.tick(1);
    t.write32(T0UPDATE, 1);
    assert_eq!(t.read32(T0LO), 10);
}

#[test]
fn split_ticks_add_up() {
    let mut a = running(3);
    let mut b = running(3);
    a.tick(1000);
    b.tick(333);
    b.tick(667);
    a.write32(T0UPDATE, 1);
    b.write32(T0UPDATE, 1);
    assert_eq!(a.read32(T0LO), b.read32(T0LO));
}

#[test]
fn timer_load_replaces_the_counter() {
    let mut t = running(2);
    t.write32(T0LOADLO, 0x1234);
    t.write32(T0LOADHI, 0);
    t.write32(T0LOAD, 1);
    t.write32(T0UPDATE, 1);
    assert_eq!(t.read32(T0LO), 0x1234);
}

#[test]
fn alarm_raises_the_interrupt() {
    let mut t = Timg::new();
    t.write32(T0ALARMLO, 5);
    t.write32(T0ALARMHI, 0);
    t.write32(INT_ENA, INT_T0);
    t.write32(T0CONFIG, CFG_EN | CFG_INCREASE | CFG_ALARM | (2 << 13));
    t.tick(9);
    assert_eq!(t.int_st() & INT_T0, 0);
    t.tick(1);
    assert_ne!(t.int_st() & INT_T0, 0);
    t.write32(INT_CLR, INT_T0);
    assert_eq!(t.read32(INT_RAW) & INT_T0, 0);
}

fn watchdog(action: u32) -> Timg {
    let mut t = Timg::new();
    t.write32(WDT_WPROTECT, WDT_WKEY);
    t.write32(WDT_CONFIG1, 1 << 16);
    t.write32(WDT_CONFIG2, 100);
    t.write32(WDT_CONFIG0, WDT_EN | (action << WDT_STG_SHIFT[0]));
    t
}

#[test]
fn watchdog_interrupt_stage_fires() {
    let mut t = watchdog(1);
    t.tick(99);
    assert_eq!(t.read32(INT_RAW) & INT_WDT, 0);
    t.tick(1);
    assert_ne!(t.read32(INT_RAW) & INT_WDT, 0);
    assert!(!t.consume_reset());
}

#[test]
fn watchdog_reset_stage_requests_reset_once() {
    let mut t = watchdog(3);
    t.tick(100);
    assert!(t.consume_reset());
    assert!(!t.consume_reset());
}

#[test]
fn feeding_the_watchdog_restarts_it() {
    let mut t = watchdog(1);
    t.tick(90);
    t.write32(WDT_FEED, 1);
    t.tick(90);
    assert_eq!(t.read32(INT_RAW) & INT_WDT, 0);
    t.tick(10);
    assert_ne!(t.read32(INT_RAW) & INT_WDT, 0);
}

#[test]
fn watchdog_is_write_protected() {
    let mut t = Timg::new();
    t.write32(WDT_WPROTECT, 0);
    t.write32(WDT_CONFIG2, 77);
    assert_ne!(t.read32(WDT_CONFIG2), 77);
    t.write32(WDT_WPROTECT, WDT_WKEY);
    t.write32(WDT_CONFIG2, 77);
    assert_eq!(t.read32(WDT_CONFIG2), 77);
}

#[test]
fn calibration_is_ready_at_once() {
    let mut t = Timg::new();
    t.write32(RTCCALICFG, CALI_START | (100 << 16));
    assert_ne!(t.read32(RTCCALICFG) & CALI_RDY, 0);
}

#[test]
fn systimer_snapshot_and_oneshot() {
    let mut s = Systimer::new();
    assert_eq!(s.read32(DATE), DATE_VALUE);
    s.write32(CONF, UNIT0_WORK_EN | TARGET_WORK_EN[0]);
    s.write32(esp32s3_soc::systimer::INT_ENA, 1);
    s.write32(TARGET_HI, 0);
    s.write32(TARGET_LO, 50);
    s.write32(TARGET_CONF, 0);
    s.write32(COMP_LOAD, 1);
    s.tick(49);
    assert_eq!(s.int_st(), 0);
    s.tick(1);
    assert_eq!(s.int_st(), 1);
    s.write32(esp32s3_soc::systimer::INT_CLR, 1);
    s.tick(500);
    assert_eq!(s.int_st(), 0);
    s.write32(OP0, OP_UPDATE);
    assert_ne!(s.read32(OP0) & OP_VALUE_VALID, 0);
    assert_eq!(s.read32(VALUE_HI0), 0);
    assert_eq!(s.read32(VALUE_LO0), 550);
}

#[test]
fn touch_pads_follow_their_threshold() {
    let mut t = Touch::new();
    t.inject(3, 500);
    assert_eq!(t.read32(TOUCH_STATUS_BASE + 4 * 2) & 0x3F_FFFF, 500);
    assert!(!t.any_touched());
    t.write32(TOUCH_THRES_BASE + 4 * 2, 600);
    assert!(t.any_touched());
    assert_ne!(t.read32(TOUCH_CHN_ST_OFF) & (1 << 31), 0);
    t.inject(3, 700);
    assert!(!t.any_touched());
}
