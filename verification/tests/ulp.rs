use esp32s3_soc::memmap::RTC_SLOW_SIZE;
use esp32s3_soc::ulp::{Ulp, REG_SLOT_OFF, ULP_BASE};

/// Hand-assembled rv32im program: store 0x12345678 to ULP reg slot 0, then
/// `ebreak`. Words (LE): lui/addi to build the reg-slot address, lui/addi
/// to build the value, sw, ebreak.
const PROG: [u32; 6] = [
    0x6000_80B7, // lui x1, 0x60008        -> 0x60008000
    0x10C0_8093, // addi x1, x1, 0x10C     -> 0x6000810C (reg slot 0)
    0x1234_5137, // lui x2, 0x12345        -> 0x12345000
    0x6781_0113, // addi x2, x2, 0x678     -> 0x12345678
    0x0020_A023, // sw x2, 0(x1)
    0x0010_0073, // ebreak
];

fn reg_slot0_idx() -> usize {
    ((ULP_BASE + REG_SLOT_OFF) - ULP_BASE) as usize / 4
}

#[test]
fn ulp_runs_program_and_writes_reg_slot() {
    let mut ulp = Ulp::new();
    let mut mem = [0u8; RTC_SLOW_SIZE as usize];
    for (i, w) in PROG.iter().enumerate() {
        mem[i * 4..i * 4 + 4].copy_from_slice(&w.to_le_bytes());
    }
    // Release the core.
    ulp.write32(ULP_BASE, 1);
    assert!(ulp.is_running());
    // Run until halted.
    for _ in 0..100 {
        ulp.step(&mut mem[..]);
        if !ulp.is_running() {
            break;
        }
    }
    assert!(!ulp.is_running());
    assert_eq!(ulp.regs[reg_slot0_idx()], 0x1234_5678);
}

#[test]
fn ulp_halts_on_ebreak_sets_debug_flag() {
    let mut ulp = Ulp::new();
    let mut mem = [0u8; RTC_SLOW_SIZE as usize];
    mem[0..4].copy_from_slice(&0x0010_0073u32.to_le_bytes()); // ebreak
    ulp.write32(ULP_BASE, 1);
    ulp.step(&mut mem[..]);
    assert!(!ulp.is_running());
    // debug register (off 0x08 -> idx 2) halted bit set.
    assert_eq!(ulp.regs[2] & 1, 1);
}

#[test]
fn ulp_register_store_round_trips() {
    let mut ulp = Ulp::new();
    ulp.write32(ULP_BASE + 0x50, 0xCAFE_BEEF);
    assert_eq!(ulp.read32(ULP_BASE + 0x50), 0xCAFE_BEEF);
}

/// Hand-assembled rv32imc program (built with riscv32-esp-elf-as, -march=rv32imc)
/// that exercises the compressed (C) extension: C.ADDI4SPN, C.LWSP/C.SWSP,
/// C.LI, C.ADDI, C.ADD, C.SUB, C.SLLI, C.SRAI, C.ANDI, C.XOR/C.OR/C.AND via
/// C.MV+C.<op>, C.LW/C.SW, C.BEQZ, C.J, C.MV and C.EBREAK. It computes a set
/// of results into `RTC_SLOW_MEM` (base 0x5000_0000 + 0x80 data region).
const C_PROG: &[u8] = &[
    0x37, 0x01, 0x00, 0x50, 0x00, 0x01, 0xa2, 0xc8, 0xc6, 0x44, 0xa6, 0xdc, 0x29, 0x45, 0xd1, 0x45,
    0x2e, 0x95, 0x2a, 0x86, 0x0d, 0x8e, 0x0a, 0x05, 0x09, 0x85, 0x9d, 0x89, 0xb2, 0x86, 0xad, 0x8e,
    0x32, 0x87, 0x4d, 0x8f, 0xb2, 0x87, 0xed, 0x8f, 0x08, 0xc0, 0x54, 0xc0, 0x18, 0xc4, 0x5c, 0xc4,
    0x10, 0xcc, 0x91, 0x47, 0x81, 0x48, 0x85, 0x08, 0x99, 0xc3, 0xfd, 0x17, 0xed, 0xbf, 0x23, 0x28,
    0x14, 0x01, 0x04, 0x40, 0x44, 0xc8, 0x02, 0x90,
];

fn rd(mem: &[u8], off: usize) -> u32 {
    u32::from_le_bytes([mem[off], mem[off + 1], mem[off + 2], mem[off + 3]])
}

#[test]
fn ulp_runs_compressed_rv32imc_program() {
    let mut ulp = Ulp::new();
    let mut mem = [0u8; RTC_SLOW_SIZE as usize];
    mem[..C_PROG.len()].copy_from_slice(C_PROG);
    ulp.write32(ULP_BASE, 1);
    for _ in 0..200 {
        if !ulp.is_running() {
            break;
        }
        ulp.step(&mut mem[..]);
    }
    assert!(!ulp.is_running(), "ULP did not halt");
    // SP-relative (C.LWSP/C.SWSP): x8 = base+0x80 stored at both 0x50 and 0x78.
    assert_eq!(rd(&mem, 0x50), 0x5000_0080);
    assert_eq!(rd(&mem, 0x78), 0x5000_0080);
    // Arithmetic results in the 0x80 data region.
    assert_eq!(rd(&mem, 0x80), 30); // x10 = (10+20) <<2 >>2
    assert_eq!(rd(&mem, 0x84), 14); // x13 = (10 ^ 4)
    assert_eq!(rd(&mem, 0x88), 14); // x14 = (10 | 4)
    assert_eq!(rd(&mem, 0x8C), 0); // x15 = (10 & 4)
    assert_eq!(rd(&mem, 0x90), 5); // loop ran 5 times
    assert_eq!(rd(&mem, 0x94), 30); // C.LW round-trip of 0x80
    assert_eq!(rd(&mem, 0x98), 10); // x12 = (30 - 20)
}

/// Run a program of 32-bit instructions until it halts.
fn run_program(prog: &[u32]) -> (Ulp, Vec<u8>) {
    let mut ulp = Ulp::new();
    let mut mem = vec![0u8; RTC_SLOW_SIZE as usize];
    for (i, w) in prog.iter().enumerate() {
        mem[i * 4..i * 4 + 4].copy_from_slice(&w.to_le_bytes());
    }
    ulp.write32(ULP_BASE, 1);
    for _ in 0..100 {
        ulp.step(&mut mem);
    }
    assert!(!ulp.is_running());
    (ulp, mem)
}

/// Result of a register operation on two constants, as the first slot shows it.
fn alu(op: u32, a: i32, b: i32) -> u32 {
    let (a, b) = (a as u32, b as u32);
    let high = |v: u32| v.wrapping_add(0x800) & 0xFFFF_F000;
    let low = |v: u32| v << 20;
    let (mut ulp, _) = run_program(&[
        0x6000_8237,                          // lui x4, 0x60008
        high(a) | 0x0B7,                      // lui x1, a
        low(a) | 0x0000_8093,                 // addi x1, x1, a
        high(b) | 0x137,                      // lui x2, b
        low(b) | 0x0001_0113,                 // addi x2, x2, b
        op | (2 << 20) | (1 << 15) | (3 << 7), // op x3, x1, x2
        0x1032_2623,                          // sw x3, 0x10C(x4)
        0x0010_0073,                          // ebreak
    ]);
    ulp.read32(ULP_BASE + REG_SLOT_OFF)
}

const MULH: u32 = 0x0200_1033;
const MULHSU: u32 = 0x0200_2033;
const MULHU: u32 = 0x0200_3033;
const DIV: u32 = 0x0200_4033;
const DIVU: u32 = 0x0200_5033;
const REM: u32 = 0x0200_6033;
const REMU: u32 = 0x0200_7033;

#[test]
fn zero_register_stays_zero() {
    let (mut ulp, _) = run_program(&[
        0x0050_0013, // addi x0, x0, 5
        0x6000_80B7, // lui x1, 0x60008
        0x10C0_8093, // addi x1, x1, 0x10C
        0x0000_A023, // sw x0, 0(x1)
        0x0010_0073, // ebreak
    ]);
    assert_eq!(ulp.read32(ULP_BASE + REG_SLOT_OFF), 0);
}

#[test]
fn signed_division_rounds_toward_zero() {
    assert_eq!(alu(DIV, -7, 2), 0xFFFF_FFFD);
    assert_eq!(alu(DIV, 7, -2), 0xFFFF_FFFD);
    assert_eq!(alu(DIV, -7, -2), 3);
    assert_eq!(alu(DIV, i32::MIN, -1), 0x8000_0000);
    assert_eq!(alu(DIV, 5, 0), 0xFFFF_FFFF);
    assert_eq!(alu(REM, -7, 2), 0xFFFF_FFFF);
    assert_eq!(alu(REM, 7, -2), 1);
    assert_eq!(alu(REM, i32::MIN, -1), 0);
    assert_eq!(alu(REM, -7, 0), 0xFFFF_FFF9);
    assert_eq!(alu(DIVU, -7, 2), 0x7FFF_FFFC);
    assert_eq!(alu(DIVU, 5, 0), 0xFFFF_FFFF);
    assert_eq!(alu(REMU, -7, 2), 1);
    assert_eq!(alu(REMU, 5, 0), 5);
}

#[test]
fn high_products_follow_the_signs() {
    assert_eq!(alu(MULH, -1, -1), 0);
    assert_eq!(alu(MULH, -1, 1), 0xFFFF_FFFF);
    assert_eq!(alu(MULH, i32::MIN, i32::MIN), 0x4000_0000);
    assert_eq!(alu(MULHSU, -1, -1), 0xFFFF_FFFF);
    assert_eq!(alu(MULHU, -1, -1), 0xFFFF_FFFE);
}

#[test]
fn narrow_accesses_leave_their_neighbours() {
    let (mut ulp, mem) = run_program(&[
        0x5000_00B7, // lui x1, 0x50000
        0xFFF0_0113, // addi x2, x0, -1
        0x0820_A023, // sw x2, 0x80(x1)
        0x0550_0193, // addi x3, x0, 0x55
        0x0830_80A3, // sb x3, 0x81(x1)
        0x0830_9223, // sh x3, 0x84(x1)
        0x0800_8203, // lb x4, 0x80(x1)
        0x0800_C283, // lbu x5, 0x80(x1)
        0x6000_8337, // lui x6, 0x60008
        0x1043_2623, // sw x4, 0x10C(x6)
        0x1053_2823, // sw x5, 0x110(x6)
        0x0010_0073, // ebreak
    ]);
    assert_eq!(&mem[0x80..0x88], &[0xFF, 0x55, 0xFF, 0xFF, 0x55, 0x00, 0x00, 0x00]);
    assert_eq!(ulp.read32(ULP_BASE + 0x0C), 0xFFFF_FFFF);
    assert_eq!(ulp.read32(ULP_BASE + 0x10), 0xFF);
}

/// Run compressed instructions and give the word stored at the stack pointer.
fn run_compressed(prog: &[u16]) -> u32 {
    let mut ulp = Ulp::new();
    let mut mem = vec![0u8; RTC_SLOW_SIZE as usize];
    // lui x2, 0x50000; addi x2, x2, 0x100.
    mem[..8].copy_from_slice(&[0x37, 0x01, 0x00, 0x50, 0x13, 0x01, 0x01, 0x10]);
    for (i, h) in prog.iter().enumerate() {
        mem[8 + i * 2..10 + i * 2].copy_from_slice(&h.to_le_bytes());
    }
    ulp.write32(ULP_BASE, 1);
    for _ in 0..100 {
        ulp.step(&mut mem);
    }
    assert!(!ulp.is_running());
    rd(&mem, 0x100)
}

#[test]
fn compressed_operands_are_decoded() {
    // c.addi4spn x9, sp, 128; c.swsp x9, 0(sp); c.ebreak.
    assert_eq!(run_compressed(&[0x0104, 0xC026, 0x9002]), 0x5000_0180);
    // c.li x8, -1; c.andi x8, -2; c.swsp x8, 0(sp); c.ebreak.
    assert_eq!(run_compressed(&[0x547D, 0x9879, 0xC022, 0x9002]), 0xFFFF_FFFE);
    // c.lui x8, 0xFFFF0; c.srai x8, 13; c.swsp x8, 0(sp); c.ebreak.
    assert_eq!(run_compressed(&[0x7441, 0x8435, 0xC022, 0x9002]), 0xFFFF_FFF8);
}

#[test]
fn jump_targets_are_even() {
    let (mut ulp, _) = run_program(&[
        0x5000_00B7, // lui x1, 0x50000
        0x00D0_80E7, // jalr x1, 13(x1): lands on 12
        0x0010_0073, // ebreak
        0x6000_8237, // lui x4, 0x60008
        0x1012_2623, // sw x1, 0x10C(x4)
        0x0010_0073, // ebreak
    ]);
    assert_eq!(ulp.read32(ULP_BASE + REG_SLOT_OFF), 0x5000_0008);
}
