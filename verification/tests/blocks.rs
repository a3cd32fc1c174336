use esp32s3_soc::block_cache::{BlockCache, FAST_MAX_OPS};
use esp32s3_soc::flashenc::{crypt_enabled, flashenc_blocks, flashenc_key_words};
use esp32s3_soc::pads::{Pads, PIN_COUNT, SIG_GPIO_OUT};
use esp32s3_soc::pll::{PllLock, PLL_LOCK, PLL_LOCK_CYCLES, PLL_POWER};
use esp32s3_soc::regstore::RegStore;

#[test]
fn register_store_round_trip() {
    let mut r = RegStore::new(0x10);
    r.write32(0x8, 77);
    assert_eq!(r.read32(0x8), 77);
    r.write32(0x100, 1);
    assert_eq!(r.read32(0x100), 0);
}

#[test]
fn pll_locks_after_its_time() {
    let mut p = PllLock::new();
    p.tick(5);
    p.write32(PLL_POWER | PLL_LOCK);
    assert_eq!(p.read32(), PLL_POWER);
    p.tick(PLL_LOCK_CYCLES - 1);
    assert_eq!(p.read32(), PLL_POWER);
    p.tick(1);
    assert_eq!(p.read32(), PLL_POWER | PLL_LOCK);
    p.write32(0);
    p.tick(2 * PLL_LOCK_CYCLES);
    assert_eq!(p.read32(), 0);
}

#[test]
fn run_ends_behind_the_first_branch() {
    let mut c = BlockCache::new();
    assert_eq!(c.fast_len_for(0, 0x4200_0010, &[]), None);
    assert_eq!(c.fast_len_for(0, 0x4200_0010, &[false, false, true, false]), Some(3));
    assert_eq!(c.lookup(0, 0x4200_0010), Some(3));
    assert_eq!(c.lookup(1, 0x4200_0010), None);
    // A kept run is not decoded again.
    assert_eq!(c.fast_len_for(0, 0x4200_0010, &[]), Some(3));
    // An address 4 KB on takes the same place.
    assert_eq!(c.fast_len_for(0, 0x4200_1010, &[true]), Some(1));
    assert_eq!(c.lookup(0, 0x4200_0010), None);
}

#[test]
fn run_length_is_capped() {
    let mut c = BlockCache::new();
    assert_eq!(c.fast_len_for(1, 0x4037_8000, &[false; 40]), Some(FAST_MAX_OPS as u8));
}

#[test]
fn encryption_toggles_with_each_burned_bit() {
    assert!(!crypt_enabled(0));
    assert!(crypt_enabled(0b001));
    assert!(!crypt_enabled(0b011));
    assert!(crypt_enabled(0b111));
}

#[test]
fn key_words_are_big_endian() {
    let mut key = [0u8; 32];
    for i in 0..32 {
        key[i] = i as u8;
    }
    let words = flashenc_key_words(&key);
    assert_eq!(words[0], 0x0001_0203);
    assert_eq!(words[7], 0x1C1D_1E1F);
}

#[test]
fn encrypted_blocks_are_aligned_and_whole() {
    assert_eq!(flashenc_blocks(0x10, 0x20, 0x1000), vec![0x10, 0x20]);
    assert_eq!(flashenc_blocks(0x18, 0x20, 0x1000), vec![0x10, 0x20]);
    assert_eq!(flashenc_blocks(0xFF0, 0x40, 0x1000), vec![0xFF0]);
    assert_eq!(flashenc_blocks(0x2000, 0x40, 0x1000), Vec::<u32>::new());
}

#[test]
fn pads_route_inputs_through_the_matrix() {
    let mut p = Pads::new();
    assert_eq!(p.input(8, 0, 1), 1);
    p.set_in_sel(8, Some((3, false)));
    assert_eq!(p.route(8), Some((3, false)));
    assert_eq!(p.input(8, 0b1000, 0), 1);
    p.set_in_sel(8, Some((3, true)));
    assert_eq!(p.input(8, 0b1000, 0), 0);
    p.set_in_sel(8, Some((40, false)));
    p.set_high_in(40, 1);
    assert_eq!(p.input(8, 0, 0), 1);
    p.set_outputs(0, 1 << 40);
    assert_eq!(p.input(8, 0, 0), 0);
    p.set_outputs(1 << 40, 1 << 40);
    assert_eq!(p.input(8, 0, 0), 1);
}

#[test]
fn pads_hold_their_outputs() {
    let mut p = Pads::new();
    p.set_raw_in(0x55);
    p.set_outputs(0b101, 0b100);
    p.set_out_sel(2, 77);
    assert_eq!(p.raw_in(), 0x55);
    assert_eq!(p.out_low(), 0b101);
    assert_eq!(p.enable_low(), 0b100);
    assert!(p.enabled(2));
    assert!(!p.enabled(0));
    assert_eq!(p.out_bit(0), 1);
    assert_eq!(p.out_sel(2), 77);
    assert_eq!(p.out_sel(PIN_COUNT), SIG_GPIO_OUT);
}
