//! ULP-RISC-V coprocessor.
//!
//! A small `rv32imc` core that runs firmware from `RTC_SLOW_MEM`. The control
//! block at [`ULP_BASE`] holds the `core` start/stall bits, the `debug` halted
//! flag and the `reg` slots through which results reach the main CPU. The main
//! CPU writes a program into `RTC_SLOW_MEM`, sets `sw_start`, and the core then
//! executes one instruction per step until an `ebreak` (or an illegal
//! instruction) halts it.
//!
//! The core reaches `RTC_SLOW_MEM` and the `reg` slots only: other loads read
//! as 0 and other stores are ignored. RV32F/D are not modeled.
//!
//! [`Op`] is the operation that a 32-bit or compressed encoding stands for;
//! [`decode32`] and [`decode16`] give the encodings, [`executed`] the effect.

use vstd::prelude::*;
use crate::bits::{bit_of, sext};
use crate::bytes::{lane, load_byte, load_half, load_word, store_byte, store_half, store_word};
use crate::memmap::{RTC_SLOW_BASE, RTC_SLOW_SIZE};

verus! {

broadcast use crate::bits::lemma_and_le;

pub const ULP_BASE: u32 = 0x6000_8100;

/// Offsets of the block within its APB page.
pub const ULP_OFF_START: u32 = 0x100;

pub const ULP_OFF_END: u32 = 0x200;

/// `core` register: `sw_start` (bit 0), `sw_stall` (bit 1).
pub const CORE_OFF: u32 = 0x00;

/// `debug` register: halted flag (bit 0).
pub const DEBUG_OFF: u32 = 0x08;

/// First shared `reg` slot.
pub const REG_SLOT_OFF: u32 = 0x0C;

/// Words in the register block.
pub const REG_COUNT: usize = 64;

/// Index of the `debug` register word.
pub const DEBUG_IDX: usize = 2;

/// Jump targets are even.
pub const EVEN: u32 = 0xFFFF_FFFE;

/// One operation of the core, with its operands decoded.
#[derive(Clone, Copy, PartialEq, Eq, Structural)]
pub enum Op {
    /// No effect but advancing the PC.
    Nop,
    /// Stop the core (`ebreak` and illegal encodings).
    Halt,
    /// `x[rd] = imm`.
    LoadImm { rd: u32, imm: u32 },
    /// `x[rd] = pc + imm`.
    AddPc { rd: u32, imm: u32 },
    /// Jump to `pc + off`.
    Jump { off: u32 },
    /// `x[rd] =` return address, jump to `pc + off`.
    JumpLink { rd: u32, off: u32 },
    /// `x[rd] =` return address, jump to `(x[rs1] + imm) & mask`, with `x[rs1]`
    /// read before the link is written.
    JumpLinkReg { rd: u32, rs1: u32, imm: u32, mask: u32 },
    /// Jump to `pc + off` if the comparison `funct3` of `x[rs1]`, `x[rs2]` holds.
    Branch { funct3: u32, rs1: u32, rs2: u32, off: u32 },
    /// Jump to `pc + off` if `x[rs1]` is zero (or nonzero, per `when_zero`).
    BranchZero { rs1: u32, when_zero: bool, off: u32 },
    /// `x[rd] =` load of width `funct3` from `x[rs1] + imm`.
    Load { funct3: u32, rd: u32, rs1: u32, imm: u32 },
    /// Store of width `funct3` of `x[rs2]` to `x[rs1] + imm`.
    Store { funct3: u32, rs1: u32, rs2: u32, imm: u32 },
    /// `x[rd] =` immediate operation `funct3` of `x[rs1]` and `imm`; `arith`
    /// picks the arithmetic right shift.
    AluImm { funct3: u32, arith: bool, rd: u32, rs1: u32, imm: u32 },
    /// `x[rd] =` register operation `funct7`/`funct3` of `x[rs1]`, `x[rs2]`.
    Alu { funct7: u32, funct3: u32, rd: u32, rs1: u32, rs2: u32 },
}

/// What the core is made of.
#[verifier::ext_equal]
pub struct UlpState {
    /// Words of the register block.
    pub regs: Seq<u32>,
    /// Integer registers `x0..x31`.
    pub x: Seq<u32>,
    pub pc: u32,
    pub running: bool,
    pub halted: bool,
}

impl UlpState {
    /// The register file has its size, and `x0` is zero.
    pub open spec fn wf(self) -> bool {
        self.regs.len() == REG_COUNT && self.x.len() == 32 && self.x[0] == 0
    }

    /// Power-on state: stopped, all registers zero.
    pub open spec fn reset() -> Self {
        UlpState {
            regs: Seq::new(REG_COUNT as nat, |i: int| 0u32),
            x: Seq::new(32, |i: int| 0u32),
            pc: RTC_SLOW_BASE,
            running: false,
            halted: false,
        }
    }

    /// The core is executing: started and not halted.
    pub open spec fn is_running(self) -> bool {
        self.running && !self.halted
    }

    /// `v` is written to register `rd`; a write to `x0` is lost.
    pub open spec fn with_x(self, rd: u32, v: u32) -> Self {
        if 0 < rd < 32 {
            UlpState { x: self.x.update(rd as int, v), ..self }
        } else {
            self
        }
    }

    /// Register word read at address `addr`; 0 outside the block.
    pub open spec fn read(self, addr: u32) -> u32 {
        if in_block(addr) {
            self.regs[((addr - ULP_BASE) / 4)]
        } else {
            0
        }
    }

    /// Register word write at address `addr`: the word is kept, and a write of
    /// the `core` register also starts (bit 0) or stalls (bit 1) the core.
    pub open spec fn write(self, addr: u32, value: u32) -> Self {
        let kept = if in_block(addr) {
            UlpState { regs: self.regs.update((addr - ULP_BASE) / 4, value), ..self }
        } else {
            self
        };
        if addr == ULP_BASE + CORE_OFF {
            let started = if value & 1 != 0 {
                UlpState {
                    running: true,
                    halted: false,
                    pc: RTC_SLOW_BASE,
                    x: Seq::new(32, |i: int| 0u32),
                    ..kept
                }
            } else {
                kept
            };
            if value & 2 != 0 {
                UlpState { running: false, ..started }
            } else {
                started
            }
        } else {
            kept
        }
    }

    /// The core after it stops: `debug` bit 0 tells the main CPU so.
    pub open spec fn stopped(self) -> Self {
        UlpState {
            halted: true,
            regs: self.regs.update(DEBUG_IDX as int, self.regs[DEBUG_IDX as int] | 1),
            ..self
        }
    }
}

/// `addr` names a word of the register block.
pub open spec fn in_block(addr: u32) -> bool {
    ULP_BASE <= addr < ULP_BASE + 4 * REG_COUNT
}

/// `addr` is where the core sees the shared `reg` slots.
pub open spec fn in_slots(addr: u32) -> bool {
    ULP_BASE + REG_SLOT_OFF <= addr < ULP_BASE + ULP_OFF_END
}

/// `addr` is where the core sees `RTC_SLOW_MEM`.
pub open spec fn in_slow_mem(addr: u32) -> bool {
    RTC_SLOW_BASE <= addr < RTC_SLOW_BASE + RTC_SLOW_SIZE
}

/// A `reg` slot value as a load of width `funct3` sees it.
pub open spec fn slot_view(v: u32, funct3: u32) -> u32 {
    if funct3 == 0 {
        crate::bits::sign_extended(v, 8)
    } else if funct3 == 1 {
        crate::bits::sign_extended(v, 16)
    } else if funct3 == 4 {
        v & 0xFF
    } else if funct3 == 5 {
        v & 0xFFFF
    } else {
        v
    }
}

/// A `reg` slot holding `cur` after a store of width `funct3` of `v`.
pub open spec fn slot_merge(cur: u32, v: u32, funct3: u32) -> u32 {
    if funct3 == 0 {
        (v & 0xFF) | (cur & 0xFFFF_FF00)
    } else if funct3 == 1 {
        (v & 0xFFFF) | (cur & 0xFFFF_0000)
    } else {
        v
    }
}

/// Value of a load of width `funct3` at byte offset `off` of a memory: a byte or
/// halfword is sign-extended or, for the unsigned widths, zero-extended.
pub open spec fn mem_view(mem: Seq<u8>, off: int, funct3: u32) -> u32 {
    if funct3 == 0 {
        crate::bits::sign_extended(crate::bytes::byte_at(mem, off) as u32, 8)
    } else if funct3 == 1 {
        crate::bits::sign_extended(crate::bytes::half_at(mem, off) as u32, 16)
    } else if funct3 == 4 {
        crate::bytes::byte_at(mem, off) as u32
    } else if funct3 == 5 {
        crate::bytes::half_at(mem, off) as u32
    } else {
        crate::bytes::word_at(mem, off)
    }
}

/// A memory after a store of width `funct3` of `v` at byte offset `off`: only
/// the bytes of that width change.
pub open spec fn mem_merge(mem: Seq<u8>, off: int, v: u32, funct3: u32) -> Seq<u8> {
    if funct3 == 0 {
        crate::bytes::with_byte(mem, off, crate::bytes::byte_lane(v, 0))
    } else if funct3 == 1 {
        crate::bytes::with_half(mem, off, v)
    } else {
        crate::bytes::with_word(mem, off, v)
    }
}

/// Value loaded from `addr`.
pub open spec fn loaded(s: UlpState, mem: Seq<u8>, addr: u32, funct3: u32) -> u32 {
    if in_slots(addr) {
        slot_view(s.read(addr), funct3)
    } else if in_slow_mem(addr) {
        mem_view(mem, addr - RTC_SLOW_BASE, funct3)
    } else {
        0
    }
}

/// Register block after a store to `addr`.
pub open spec fn slots_after_store(s: UlpState, addr: u32, v: u32, funct3: u32) -> UlpState {
    if in_slots(addr) && in_block(addr) {
        let i = (addr - ULP_BASE) / 4;
        UlpState { regs: s.regs.update(i, slot_merge(s.regs[i], v, funct3)), ..s }
    } else {
        s
    }
}

/// Memory after a store to `addr`.
pub open spec fn mem_after_store(mem: Seq<u8>, addr: u32, v: u32, funct3: u32) -> Seq<u8> {
    if !in_slots(addr) && in_slow_mem(addr) {
        mem_merge(mem, addr - RTC_SLOW_BASE, v, funct3)
    } else {
        mem
    }
}

/// The two's-complement value of a word.
pub open spec fn signed(a: u32) -> int {
    if a < 0x8000_0000 {
        a as int
    } else {
        a - 0x1_0000_0000
    }
}

/// The low 32 bits of an integer.
pub open spec fn wrapped(v: int) -> u32 {
    (v % 0x1_0000_0000) as u32
}

/// Whether a branch of kind `funct3` on `a`, `b` is taken.
pub open spec fn branch_taken(funct3: u32, a: u32, b: u32) -> bool {
    match funct3 {
        0 => a == b,
        1 => a != b,
        4 => signed(a) < signed(b),
        5 => signed(a) >= signed(b),
        6 => a < b,
        7 => a >= b,
        _ => false,
    }
}

/// Result of the immediate operation `funct3`.
pub open spec fn alu_imm(funct3: u32, arith: bool, a: u32, imm: u32) -> u32 {
    match funct3 {
        0 => a.wrapping_add(imm),
        1 => a << (imm & 0x1F),
        2 => if signed(a) < signed(imm) { 1 } else { 0 },
        3 => if a < imm { 1 } else { 0 },
        4 => a ^ imm,
        5 => if arith { ((a as i32) >> (imm & 0x1F)) as u32 } else { a >> (imm & 0x1F) },
        6 => a | imm,
        7 => a & imm,
        _ => 0,
    }
}

/// Product of two words, each signed where told so.
pub open spec fn product(a: u32, a_signed: bool, b: u32, b_signed: bool) -> int {
    let a_neg = a_signed && a >= 0x8000_0000;
    let b_neg = b_signed && b >= 0x8000_0000;
    if a_neg && b_neg {
        (a - 0x1_0000_0000) * (b - 0x1_0000_0000)
    } else if a_neg {
        (a - 0x1_0000_0000) * b
    } else if b_neg {
        a * (b - 0x1_0000_0000)
    } else {
        a * b
    }
}

/// High word of a 64-bit product.
pub open spec fn mul_high(a: u32, a_signed: bool, b: u32, b_signed: bool) -> u32 {
    wrapped(product(a, a_signed, b, b_signed) / 0x1_0000_0000)
}

/// Distance of an integer from zero.
pub open spec fn magnitude(v: int) -> int {
    if v < 0 {
        -v
    } else {
        v
    }
}

/// Quotient of two signed words, rounded toward zero.
pub open spec fn quotient(a: u32, b: u32) -> int {
    if a < 0x8000_0000 && b < 0x8000_0000 {
        (a as int) / (b as int)
    } else if a < 0x8000_0000 {
        -((a as int) / (0x1_0000_0000 - b))
    } else if b < 0x8000_0000 {
        -((0x1_0000_0000 - a) / (b as int))
    } else {
        (0x1_0000_0000 - a) / (0x1_0000_0000 - b)
    }
}

/// Remainder of that quotient; it has the sign of `a`.
pub open spec fn remainder(a: u32, b: u32) -> int {
    if a < 0x8000_0000 && b < 0x8000_0000 {
        (a as int) % (b as int)
    } else if a < 0x8000_0000 {
        (a as int) % (0x1_0000_0000 - b)
    } else if b < 0x8000_0000 {
        -((0x1_0000_0000 - a) % (b as int))
    } else {
        -((0x1_0000_0000 - a) % (0x1_0000_0000 - b))
    }
}

/// Result of the register operation `funct7`/`funct3`. A division by zero gives
/// all ones and leaves the dividend as remainder.
pub open spec fn alu_reg(funct7: u32, funct3: u32, a: u32, b: u32) -> u32 {
    match (funct7, funct3) {
        (0x00, 0) => a.wrapping_add(b),
        (0x20, 0) => a.wrapping_sub(b),
        (0x00, 1) => a << (b & 0x1F),
        (0x00, 2) => if signed(a) < signed(b) { 1 } else { 0 },
        (0x00, 3) => if a < b { 1 } else { 0 },
        (0x00, 4) => a ^ b,
        (0x00, 5) => a >> (b & 0x1F),
        (0x20, 5) => ((a as i32) >> (b & 0x1F)) as u32,
        (0x00, 6) => a | b,
        (0x00, 7) => a & b,
        (0x01, 0) => a.wrapping_mul(b),
        (0x01, 1) => mul_high(a, true, b, true),
        (0x01, 2) => mul_high(a, true, b, false),
        (0x01, 3) => mul_high(a, false, b, false),
        (0x01, 4) => if b == 0 { 0xFFFF_FFFF } else { wrapped(quotient(a, b)) },
        (0x01, 5) => if b == 0 { 0xFFFF_FFFF } else { a / b },
        (0x01, 6) => if b == 0 { a } else { wrapped(remainder(a, b)) },
        (0x01, 7) => if b == 0 { a } else { a % b },
        _ => 0,
    }
}

/// Signed comparison of two words.
fn less_signed(a: u32, b: u32) -> (r: bool)
    ensures
        r == (signed(a) < signed(b)),
{
    if (a < 0x8000_0000) == (b < 0x8000_0000) {
        a < b
    } else {
        b < 0x8000_0000
    }
}

/// Whether a branch of kind `funct3` on `a`, `b` is taken.
fn take_branch(funct3: u32, a: u32, b: u32) -> (r: bool)
    ensures
        r == branch_taken(funct3, a, b),
{
    match funct3 {
        0 => a == b,
        1 => a != b,
        4 => less_signed(a, b),
        5 => !less_signed(a, b),
        6 => a < b,
        7 => a >= b,
        _ => false,
    }
}

/// Immediate operation `funct3`.
fn compute_imm(funct3: u32, arith: bool, a: u32, imm: u32) -> (r: u32)
    ensures
        r == alu_imm(funct3, arith, a, imm),
{
    match funct3 {
        0 => a.wrapping_add(imm),
        1 => a << (imm & 0x1F),
        2 => if less_signed(a, imm) { 1 } else { 0 },
        3 => if a < imm { 1 } else { 0 },
        4 => a ^ imm,
        5 => if arith { ((a as i32) >> (imm & 0x1F)) as u32 } else { a >> (imm & 0x1F) },
        6 => a | imm,
        7 => a & imm,
        _ => 0,
    }
}

/// High word of the product of two words, each signed where told so.
fn compute_mul_high(a: u32, a_signed: bool, b: u32, b_signed: bool) -> (r: u32)
    ensures
        r == mul_high(a, a_signed, b, b_signed),
{
    let a_neg = a_signed && a >= 0x8000_0000;
    let b_neg = b_signed && b >= 0x8000_0000;
    let ghost m: int = 0x1_0000_0000;
    let ghost (x, y): (int, int) = (a as int, b as int);
    assert(0 <= a * b <= 0xFFFF_FFFF * 0xFFFF_FFFF) by (nonlinear_arith)
        requires
            0 <= a <= 0xFFFF_FFFF,
            0 <= b <= 0xFFFF_FFFF,
    ;
    assert((x - m) * y == x * y - m * y && x * (y - m) == x * y - m * x && (x - m) * (y - m) == x * y
        - m * x - m * y + m * m) by (nonlinear_arith);
    let high: u32 = (((a as u64) * (b as u64)) / 0x1_0000_0000) as u32;
    let high: u32 = if a_neg {
        high.wrapping_sub(b)
    } else {
        high
    };
    if b_neg {
        high.wrapping_sub(a)
    } else {
        high
    }
}

/// Distance of a signed word from zero.
fn compute_magnitude(a: u32) -> (r: u32)
    ensures
        r == magnitude(signed(a)),
{
    if a < 0x8000_0000 {
        a
    } else {
        0xFFFF_FFFF - a + 1
    }
}

/// Signed quotient.
fn compute_div(a: u32, b: u32) -> (r: u32)
    requires
        b != 0,
    ensures
        r == wrapped(quotient(a, b)),
{
    let q: u32 = compute_magnitude(a) / compute_magnitude(b);
    if (a < 0x8000_0000) == (b < 0x8000_0000) {
        q
    } else {
        0u32.wrapping_sub(q)
    }
}

/// Signed remainder.
fn compute_rem(a: u32, b: u32) -> (r: u32)
    requires
        b != 0,
    ensures
        r == wrapped(remainder(a, b)),
{
    let m: u32 = compute_magnitude(a) % compute_magnitude(b);
    if a < 0x8000_0000 {
        m
    } else {
        0u32.wrapping_sub(m)
    }
}

/// Register operation `funct7`/`funct3`.
fn compute_reg(funct7: u32, funct3: u32, a: u32, b: u32) -> (r: u32)
    ensures
        r == alu_reg(funct7, funct3, a, b),
{
    match (funct7, funct3) {
        (0x00, 0) => a.wrapping_add(b),
        (0x20, 0) => a.wrapping_sub(b),
        (0x00, 1) => a << (b & 0x1F),
        (0x00, 2) => if less_signed(a, b) { 1 } else { 0 },
        (0x00, 3) => if a < b { 1 } else { 0 },
        (0x00, 4) => a ^ b,
        (0x00, 5) => a >> (b & 0x1F),
        (0x20, 5) => ((a as i32) >> (b & 0x1F)) as u32,
        (0x00, 6) => a | b,
        (0x00, 7) => a & b,
        (0x01, 0) => a.wrapping_mul(b),
        (0x01, 1) => compute_mul_high(a, true, b, true),
        (0x01, 2) => compute_mul_high(a, true, b, false),
        (0x01, 3) => compute_mul_high(a, false, b, false),
        (0x01, 4) => if b == 0 { 0xFFFF_FFFF } else { compute_div(a, b) },
        (0x01, 5) => if b == 0 { 0xFFFF_FFFF } else { a / b },
        (0x01, 6) => if b == 0 { a } else { compute_rem(a, b) },
        (0x01, 7) => if b == 0 { a } else { a % b },
        _ => 0,
    }
}

/// Immediate of an I-type encoding.
pub open spec fn imm_i(insn: u32) -> u32 {
    crate::bits::sign_extended(insn >> 20, 12)
}

/// Immediate of an I-type encoding.
fn get_imm_i(insn: u32) -> (r: u32)
    ensures
        r == imm_i(insn),
{
    sext(insn >> 20, 12)
}

/// Immediate of an S-type encoding.
pub open spec fn imm_s(insn: u32) -> u32 {
    crate::bits::sign_extended(((insn >> 25) << 5) | ((insn >> 7) & 0x1F), 12)
}

/// Immediate of an S-type encoding.
fn get_imm_s(insn: u32) -> (r: u32)
    ensures
        r == imm_s(insn),
{
    sext(((insn >> 25) << 5) | ((insn >> 7) & 0x1F), 12)
}

/// Offset of a J-type encoding.
pub open spec fn imm_j(insn: u32) -> u32 {
    crate::bits::sign_extended(
        (crate::bits::bit(insn, 31) << 20) | (((insn >> 21) & 0x3FF) << 1) | (crate::bits::bit(insn, 20) << 11) | (((insn
            >> 12) & 0xFF) << 12),
        21,
    )
}

/// Offset of a J-type encoding.
fn get_imm_j(insn: u32) -> (r: u32)
    ensures
        r == imm_j(insn),
{
    sext(
        (bit_of(insn, 31) << 20) | (((insn >> 21) & 0x3FF) << 1) | (bit_of(insn, 20) << 11) | (((insn
            >> 12) & 0xFF) << 12),
        21,
    )
}

/// Offset of a B-type encoding.
pub open spec fn imm_b(insn: u32) -> u32 {
    crate::bits::sign_extended(
        (crate::bits::bit(insn, 31) << 12) | (crate::bits::bit(insn, 7) << 11) | (((insn >> 25) & 0x3F) << 5) | (((insn >> 8)
            & 0xF) << 1),
        13,
    )
}

/// Offset of a B-type encoding.
fn get_imm_b(insn: u32) -> (r: u32)
    ensures
        r == imm_b(insn),
{
    sext(
        (bit_of(insn, 31) << 12) | (bit_of(insn, 7) << 11) | (((insn >> 25) & 0x3F) << 5) | (((insn >> 8)
            & 0xF) << 1),
        13,
    )
}

/// Six-bit signed immediate of C.ADDI, C.LI, C.LUI and C.ANDI.
pub open spec fn c_imm6(insn: u32) -> u32 {
    crate::bits::sign_extended((crate::bits::bit(insn, 12) << 5) | ((insn >> 2) & 0x1F), 6)
}

/// Six-bit signed immediate of C.ADDI, C.LI, C.LUI and C.ANDI.
fn get_c_imm6(insn: u32) -> (r: u32)
    ensures
        r == c_imm6(insn),
{
    sext((bit_of(insn, 12) << 5) | ((insn >> 2) & 0x1F), 6)
}

/// Offset of C.J and C.JAL (12-bit signed, a multiple of 2).
pub open spec fn c_j_imm(insn: u32) -> u32 {
    crate::bits::sign_extended(
        (crate::bits::bit(insn, 3) << 1) | (crate::bits::bit(insn, 4) << 2) | (crate::bits::bit(insn, 5) << 3) | (crate::bits::bit(insn, 11) << 4) | (
        crate::bits::bit(insn, 2) << 5) | (crate::bits::bit(insn, 7) << 6) | (crate::bits::bit(insn, 6) << 7) | (crate::bits::bit(insn, 9) << 8) | (
        crate::bits::bit(insn, 10) << 9) | (crate::bits::bit(insn, 8) << 10) | (crate::bits::bit(insn, 12) << 11),
        12,
    )
}

/// Offset of C.J and C.JAL (12-bit signed, a multiple of 2).
fn get_c_j_imm(insn: u32) -> (r: u32)
    ensures
        r == c_j_imm(insn),
{
    sext(
        (bit_of(insn, 3) << 1) | (bit_of(insn, 4) << 2) | (bit_of(insn, 5) << 3) | (bit_of(insn, 11) << 4) | (
        bit_of(insn, 2) << 5) | (bit_of(insn, 7) << 6) | (bit_of(insn, 6) << 7) | (bit_of(insn, 9) << 8) | (
        bit_of(insn, 10) << 9) | (bit_of(insn, 8) << 10) | (bit_of(insn, 12) << 11),
        12,
    )
}

/// Offset of C.BEQZ and C.BNEZ (9-bit signed, a multiple of 2).
pub open spec fn c_b_imm(insn: u32) -> u32 {
    crate::bits::sign_extended(
        (crate::bits::bit(insn, 3) << 1) | (crate::bits::bit(insn, 4) << 2) | (crate::bits::bit(insn, 10) << 3) | (crate::bits::bit(insn, 11) << 4) | (
        crate::bits::bit(insn, 2) << 5) | (crate::bits::bit(insn, 5) << 6) | (crate::bits::bit(insn, 6) << 7) | (crate::bits::bit(insn, 12) << 8),
        9,
    )
}

/// Offset of C.BEQZ and C.BNEZ (9-bit signed, a multiple of 2).
fn get_c_b_imm(insn: u32) -> (r: u32)
    ensures
        r == c_b_imm(insn),
{
    sext(
        (bit_of(insn, 3) << 1) | (bit_of(insn, 4) << 2) | (bit_of(insn, 10) << 3) | (bit_of(insn, 11) << 4) | (
        bit_of(insn, 2) << 5) | (bit_of(insn, 5) << 6) | (bit_of(insn, 6) << 7) | (bit_of(insn, 12) << 8),
        9,
    )
}

/// Stack adjustment of C.ADDI16SP.
pub open spec fn c_sp_imm(insn: u32) -> u32 {
    crate::bits::sign_extended(
        ((crate::bits::bit(insn, 12) << 5) | (crate::bits::bit(insn, 4) << 4) | (crate::bits::bit(insn, 3) << 3) | (crate::bits::bit(insn, 5) << 2) | (
        crate::bits::bit(insn, 2) << 1) | crate::bits::bit(insn, 6)) & 0x3F,
        6,
    ) << 4
}

/// Stack adjustment of C.ADDI16SP.
fn get_c_sp_imm(insn: u32) -> (r: u32)
    ensures
        r == c_sp_imm(insn),
{
    sext(
        ((bit_of(insn, 12) << 5) | (bit_of(insn, 4) << 4) | (bit_of(insn, 3) << 3) | (bit_of(insn, 5) << 2) | (
        bit_of(insn, 2) << 1) | bit_of(insn, 6)) & 0x3F,
        6,
    ) << 4
}

/// Scaled immediate of C.ADDI4SPN, in units of 4 bytes.
pub open spec fn c_addi4spn_imm(insn: u32) -> u32 {
    (crate::bits::bit(insn, 6) | (crate::bits::bit(insn, 5) << 1) | (crate::bits::bit(insn, 11) << 2) | (crate::bits::bit(insn, 12) << 3) | (crate::bits::bit(insn, 7)
        << 4) | (crate::bits::bit(insn, 8) << 5) | (crate::bits::bit(insn, 9) << 6) | (crate::bits::bit(insn, 10) << 7)) & 0x3FF
}

/// Scaled immediate of C.ADDI4SPN, in units of 4 bytes.
fn get_c_addi4spn_imm(insn: u32) -> (r: u32)
    ensures
        r == c_addi4spn_imm(insn),
{
    (bit_of(insn, 6) | (bit_of(insn, 5) << 1) | (bit_of(insn, 11) << 2) | (bit_of(insn, 12) << 3) | (bit_of(insn, 7)
        << 4) | (bit_of(insn, 8) << 5) | (bit_of(insn, 9) << 6) | (bit_of(insn, 10) << 7)) & 0x3FF
}

/// Byte offset of C.LW and C.SW.
pub open spec fn c_word_off(insn: u32) -> u32 {
    ((crate::bits::bit(insn, 5) << 4) | (crate::bits::bit(insn, 12) << 3) | (crate::bits::bit(insn, 11) << 2) | (crate::bits::bit(insn, 10) << 1)
        | crate::bits::bit(insn, 6)) << 2
}

/// Byte offset of C.LW and C.SW.
fn get_c_word_off(insn: u32) -> (r: u32)
    ensures
        r == c_word_off(insn),
{
    ((bit_of(insn, 5) << 4) | (bit_of(insn, 12) << 3) | (bit_of(insn, 11) << 2) | (bit_of(insn, 10) << 1)
        | bit_of(insn, 6)) << 2
}

/// Byte offset of C.LWSP.
pub open spec fn c_lwsp_off(insn: u32) -> u32 {
    ((crate::bits::bit(insn, 3) << 5) | (crate::bits::bit(insn, 2) << 4) | (crate::bits::bit(insn, 12) << 3) | (crate::bits::bit(insn, 6) << 2) | (
    crate::bits::bit(insn, 5) << 1) | crate::bits::bit(insn, 4)) << 2
}

/// Byte offset of C.LWSP.
fn get_c_lwsp_off(insn: u32) -> (r: u32)
    ensures
        r == c_lwsp_off(insn),
{
    ((bit_of(insn, 3) << 5) | (bit_of(insn, 2) << 4) | (bit_of(insn, 12) << 3) | (bit_of(insn, 6) << 2) | (
    bit_of(insn, 5) << 1) | bit_of(insn, 4)) << 2
}

/// Byte offset of C.SWSP.
pub open spec fn c_swsp_off(insn: u32) -> u32 {
    ((crate::bits::bit(insn, 8) << 5) | (crate::bits::bit(insn, 7) << 4) | (crate::bits::bit(insn, 12) << 3) | (crate::bits::bit(insn, 11) << 2) | (
    crate::bits::bit(insn, 10) << 1) | crate::bits::bit(insn, 9)) << 2
}

/// Byte offset of C.SWSP.
fn get_c_swsp_off(insn: u32) -> (r: u32)
    ensures
        r == c_swsp_off(insn),
{
    ((bit_of(insn, 8) << 5) | (bit_of(insn, 7) << 4) | (bit_of(insn, 12) << 3) | (bit_of(insn, 11) << 2) | (
    bit_of(insn, 10) << 1) | bit_of(insn, 9)) << 2
}

impl Op {
    /// Every register operand names one of `x0..x31`.
    pub open spec fn wf(self) -> bool {
        match self {
            Op::Nop => true,
            Op::Halt => true,
            Op::LoadImm { rd, .. } => rd < 32,
            Op::AddPc { rd, .. } => rd < 32,
            Op::Jump { .. } => true,
            Op::JumpLink { rd, .. } => rd < 32,
            Op::JumpLinkReg { rd, rs1, .. } => rd < 32 && rs1 < 32,
            Op::Branch { rs1, rs2, .. } => rs1 < 32 && rs2 < 32,
            Op::BranchZero { rs1, .. } => rs1 < 32,
            Op::Load { rd, rs1, .. } => rd < 32 && rs1 < 32,
            Op::Store { rs1, rs2, .. } => rs1 < 32 && rs2 < 32,
            Op::AluImm { rd, rs1, .. } => rd < 32 && rs1 < 32,
            Op::Alu { rd, rs1, rs2, .. } => rd < 32 && rs1 < 32 && rs2 < 32,
        }
    }
}

/// Operation of a 32-bit encoding.
pub open spec fn decode32(insn: u32) -> Op {
    let rd = (insn >> 7) & 0x1F;
    let funct3 = (insn >> 12) & 0x7;
    let rs1 = (insn >> 15) & 0x1F;
    let rs2 = (insn >> 20) & 0x1F;
    let funct7 = (insn >> 25) & 0x7F;
    let opcode = insn & 0x7F;
    match opcode {
        0x37 => Op::LoadImm { rd, imm: insn & 0xFFFF_F000 },
        0x17 => Op::AddPc { rd, imm: insn & 0xFFFF_F000 },
        0x6F => Op::JumpLink { rd, off: imm_j(insn) },
        0x67 => Op::JumpLinkReg { rd, rs1, imm: imm_i(insn), mask: EVEN },
        0x63 => Op::Branch { funct3, rs1, rs2, off: imm_b(insn) },
        0x03 => Op::Load { funct3, rd, rs1, imm: imm_i(insn) },
        0x23 => Op::Store { funct3, rs1, rs2, imm: imm_s(insn) },
        0x13 => Op::AluImm { funct3, arith: funct7 & 0x20 != 0, rd, rs1, imm: imm_i(insn) },
        0x33 => Op::Alu { funct7, funct3, rd, rs1, rs2 },
        0x0F => Op::Nop,
        0x73 => if (insn >> 20) & 0xFFF == 1 {
            Op::Halt
        } else {
            Op::Nop
        },
        _ => Op::Halt,
    }
}

/// Operation of a 32-bit encoding.
fn get_decode32(insn: u32) -> (op: Op)
    ensures
        op == decode32(insn),
        op.wf(),
{
    let rd: u32 = (insn >> 7) & 0x1F;
    let funct3: u32 = (insn >> 12) & 0x7;
    let rs1: u32 = (insn >> 15) & 0x1F;
    let rs2: u32 = (insn >> 20) & 0x1F;
    let funct7: u32 = (insn >> 25) & 0x7F;
    let opcode: u32 = insn & 0x7F;
    match opcode {
        0x37 => Op::LoadImm { rd, imm: insn & 0xFFFF_F000 },
        0x17 => Op::AddPc { rd, imm: insn & 0xFFFF_F000 },
        0x6F => Op::JumpLink { rd, off: get_imm_j(insn) },
        0x67 => Op::JumpLinkReg { rd, rs1, imm: get_imm_i(insn), mask: EVEN },
        0x63 => Op::Branch { funct3, rs1, rs2, off: get_imm_b(insn) },
        0x03 => Op::Load { funct3, rd, rs1, imm: get_imm_i(insn) },
        0x23 => Op::Store { funct3, rs1, rs2, imm: get_imm_s(insn) },
        0x13 => Op::AluImm { funct3, arith: funct7 & 0x20 != 0, rd, rs1, imm: get_imm_i(insn) },
        0x33 => Op::Alu { funct7, funct3, rd, rs1, rs2 },
        0x0F => Op::Nop,
        0x73 => if (insn >> 20) & 0xFFF == 1 {
            Op::Halt
        } else {
            Op::Nop
        },
        _ => Op::Halt,
    }
}

/// Operation of a compressed encoding of quadrant 0.
pub open spec fn decode_quad0(insn: u32) -> Op {
    let funct3 = (insn >> 13) & 0x7;
    let lo = (8 + ((insn >> 2) & 0x7)) as u32;
    let hi = (8 + ((insn >> 7) & 0x7)) as u32;
    match funct3 {
        0 => if c_addi4spn_imm(insn) != 0 {
            Op::AluImm {
                funct3: 0,
                arith: false,
                rd: lo,
                rs1: 2,
                imm: c_addi4spn_imm(insn) << 2,
            }
        } else {
            Op::Nop
        },
        2 => Op::Load { funct3: 2, rd: lo, rs1: hi, imm: c_word_off(insn) },
        6 => Op::Store { funct3: 2, rs1: hi, rs2: lo, imm: c_word_off(insn) },
        _ => Op::Halt,
    }
}

/// Operation of a compressed encoding of quadrant 0.
fn get_decode_quad0(insn: u32) -> (op: Op)
    ensures
        op == decode_quad0(insn),
        op.wf(),
{
    let funct3: u32 = (insn >> 13) & 0x7;
    let lo: u32 = 8 + ((insn >> 2) & 0x7);
    let hi: u32 = 8 + ((insn >> 7) & 0x7);
    match funct3 {
        0 => if get_c_addi4spn_imm(insn) != 0 {
            Op::AluImm {
                funct3: 0,
                arith: false,
                rd: lo,
                rs1: 2,
                imm: get_c_addi4spn_imm(insn) << 2,
            }
        } else {
            Op::Nop
        },
        2 => Op::Load { funct3: 2, rd: lo, rs1: hi, imm: get_c_word_off(insn) },
        6 => Op::Store { funct3: 2, rs1: hi, rs2: lo, imm: get_c_word_off(insn) },
        _ => Op::Halt,
    }
}

/// Operation of a compressed encoding of the MISC-ALU group.
pub open spec fn decode_misc_alu(insn: u32) -> Op {
    let lo = (insn >> 2) & 0x7;
    let rs2 = (8 + lo) as u32;
    let rd = (8 + ((insn >> 7) & 0x7)) as u32;
    let shamt = (insn >> 2) & 0x1F;
    let sel = (insn >> 5) & 0x3;
    let funct2 = (insn >> 10) & 0x3;
    match funct2 {
        0 => if crate::bits::bit(insn, 12) == 0 {
            Op::AluImm { funct3: 5, arith: false, rd, rs1: rd, imm: shamt }
        } else {
            Op::Halt
        },
        1 => if crate::bits::bit(insn, 12) == 0 {
            Op::AluImm { funct3: 5, arith: true, rd, rs1: rd, imm: shamt }
        } else if lo == 0 {
            Op::JumpLinkReg { rd: 1, rs1: rd, imm: 0, mask: 0xFFFF_FFFF }
        } else {
            Op::Alu { funct7: 0, funct3: 0, rd, rs1: rd, rs2 }
        },
        2 => Op::AluImm { funct3: 7, arith: false, rd, rs1: rd, imm: c_imm6(insn) },
        _ => match sel {
            0 => Op::Alu { funct7: 0x20, funct3: 0, rd, rs1: rd, rs2 },
            1 => Op::Alu { funct7: 0, funct3: 4, rd, rs1: rd, rs2 },
            2 => Op::Alu { funct7: 0, funct3: 6, rd, rs1: rd, rs2 },
            _ => Op::Alu { funct7: 0, funct3: 7, rd, rs1: rd, rs2 },
        },
    }
}

/// Operation of a compressed encoding of the MISC-ALU group.
fn get_decode_misc_alu(insn: u32) -> (op: Op)
    ensures
        op == decode_misc_alu(insn),
        op.wf(),
{
    let lo: u32 = (insn >> 2) & 0x7;
    let rs2: u32 = 8 + lo;
    let rd: u32 = 8 + ((insn >> 7) & 0x7);
    let shamt: u32 = (insn >> 2) & 0x1F;
    let sel: u32 = (insn >> 5) & 0x3;
    let funct2: u32 = (insn >> 10) & 0x3;
    match funct2 {
        0 => if bit_of(insn, 12) == 0 {
            Op::AluImm { funct3: 5, arith: false, rd, rs1: rd, imm: shamt }
        } else {
            Op::Halt
        },
        1 => if bit_of(insn, 12) == 0 {
            Op::AluImm { funct3: 5, arith: true, rd, rs1: rd, imm: shamt }
        } else if lo == 0 {
            Op::JumpLinkReg { rd: 1, rs1: rd, imm: 0, mask: 0xFFFF_FFFF }
        } else {
            Op::Alu { funct7: 0, funct3: 0, rd, rs1: rd, rs2 }
        },
        2 => Op::AluImm { funct3: 7, arith: false, rd, rs1: rd, imm: get_c_imm6(insn) },
        _ => match sel {
            0 => Op::Alu { funct7: 0x20, funct3: 0, rd, rs1: rd, rs2 },
            1 => Op::Alu { funct7: 0, funct3: 4, rd, rs1: rd, rs2 },
            2 => Op::Alu { funct7: 0, funct3: 6, rd, rs1: rd, rs2 },
            _ => Op::Alu { funct7: 0, funct3: 7, rd, rs1: rd, rs2 },
        },
    }
}

/// Operation of a compressed encoding of quadrant 1.
pub open spec fn decode_quad1(insn: u32) -> Op {
    let funct3 = (insn >> 13) & 0x7;
    let rd = (insn >> 7) & 0x1F;
    let rs1 = (8 + ((insn >> 7) & 0x7)) as u32;
    match funct3 {
        0 => Op::AluImm { funct3: 0, arith: false, rd, rs1: rd, imm: c_imm6(insn) },
        1 => Op::JumpLink { rd: 1, off: c_j_imm(insn) },
        2 => Op::LoadImm { rd, imm: c_imm6(insn) },
        3 => if rd == 2 {
            Op::AluImm { funct3: 0, arith: false, rd: 2, rs1: 2, imm: c_sp_imm(insn) }
        } else if rd != 0 {
            Op::LoadImm { rd, imm: c_imm6(insn) << 12 }
        } else {
            Op::Nop
        },
        4 => decode_misc_alu(insn),
        5 => Op::Jump { off: c_j_imm(insn) },
        6 => Op::BranchZero { rs1, when_zero: true, off: c_b_imm(insn) },
        _ => Op::BranchZero { rs1, when_zero: false, off: c_b_imm(insn) },
    }
}

/// Operation of a compressed encoding of quadrant 1.
fn get_decode_quad1(insn: u32) -> (op: Op)
    ensures
        op == decode_quad1(insn),
        op.wf(),
{
    let funct3: u32 = (insn >> 13) & 0x7;
    let rd: u32 = (insn >> 7) & 0x1F;
    let rs1: u32 = 8 + ((insn >> 7) & 0x7);
    match funct3 {
        0 => Op::AluImm { funct3: 0, arith: false, rd, rs1: rd, imm: get_c_imm6(insn) },
        1 => Op::JumpLink { rd: 1, off: get_c_j_imm(insn) },
        2 => Op::LoadImm { rd, imm: get_c_imm6(insn) },
        3 => if rd == 2 {
            Op::AluImm { funct3: 0, arith: false, rd: 2, rs1: 2, imm: get_c_sp_imm(insn) }
        } else if rd != 0 {
            Op::LoadImm { rd, imm: get_c_imm6(insn) << 12 }
        } else {
            Op::Nop
        },
        4 => get_decode_misc_alu(insn),
        5 => Op::Jump { off: get_c_j_imm(insn) },
        6 => Op::BranchZero { rs1, when_zero: true, off: get_c_b_imm(insn) },
        _ => Op::BranchZero { rs1, when_zero: false, off: get_c_b_imm(insn) },
    }
}

/// Operation of a compressed encoding of quadrant 2.
pub open spec fn decode_quad2(insn: u32) -> Op {
    let funct3 = (insn >> 13) & 0x7;
    let rd = (insn >> 7) & 0x1F;
    let rs2 = (insn >> 2) & 0x1F;
    match funct3 {
        0 => Op::AluImm { funct3: 1, arith: false, rd, rs1: rd, imm: rs2 },
        2 => if rd != 0 {
            Op::Load { funct3: 2, rd, rs1: 2, imm: c_lwsp_off(insn) }
        } else {
            Op::Nop
        },
        4 => if crate::bits::bit(insn, 12) == 0 {
            if rs2 == 0 {
                Op::JumpLinkReg { rd: 0, rs1: rd, imm: 0, mask: EVEN }
            } else {
                Op::AluImm { funct3: 0, arith: false, rd, rs1: rs2, imm: 0 }
            }
        } else if rs2 == 0 {
            if rd == 0 {
                Op::Halt
            } else {
                Op::JumpLinkReg { rd: 1, rs1: rd, imm: 0, mask: EVEN }
            }
        } else {
            Op::Alu { funct7: 0, funct3: 0, rd, rs1: rd, rs2 }
        },
        6 => Op::Store { funct3: 2, rs1: 2, rs2, imm: c_swsp_off(insn) },
        _ => Op::Halt,
    }
}

/// Operation of a compressed encoding of quadrant 2.
fn get_decode_quad2(insn: u32) -> (op: Op)
    ensures
        op == decode_quad2(insn),
        op.wf(),
{
    let funct3: u32 = (insn >> 13) & 0x7;
    let rd: u32 = (insn >> 7) & 0x1F;
    let rs2: u32 = (insn >> 2) & 0x1F;
    match funct3 {
        0 => Op::AluImm { funct3: 1, arith: false, rd, rs1: rd, imm: rs2 },
        2 => if rd != 0 {
            Op::Load { funct3: 2, rd, rs1: 2, imm: get_c_lwsp_off(insn) }
        } else {
            Op::Nop
        },
        4 => if bit_of(insn, 12) == 0 {
            if rs2 == 0 {
                Op::JumpLinkReg { rd: 0, rs1: rd, imm: 0, mask: EVEN }
            } else {
                Op::AluImm { funct3: 0, arith: false, rd, rs1: rs2, imm: 0 }
            }
        } else if rs2 == 0 {
            if rd == 0 {
                Op::Halt
            } else {
                Op::JumpLinkReg { rd: 1, rs1: rd, imm: 0, mask: EVEN }
            }
        } else {
            Op::Alu { funct7: 0, funct3: 0, rd, rs1: rd, rs2 }
        },
        6 => Op::Store { funct3: 2, rs1: 2, rs2, imm: get_c_swsp_off(insn) },
        _ => Op::Halt,
    }
}

/// Operation of a compressed (16-bit) encoding.
pub open spec fn decode16(insn: u32) -> Op {
    let quad = insn & 0x3;
    match quad {
        0 => decode_quad0(insn),
        1 => decode_quad1(insn),
        2 => decode_quad2(insn),
        _ => Op::Halt,
    }
}

/// Operation of a compressed (16-bit) encoding.
fn get_decode16(insn: u32) -> (op: Op)
    ensures
        op == decode16(insn),
        op.wf(),
{
    let quad: u32 = insn & 0x3;
    match quad {
        0 => get_decode_quad0(insn),
        1 => get_decode_quad1(insn),
        2 => get_decode_quad2(insn),
        _ => Op::Halt,
    }
}

/// Outcome of one operation: core, memory and the address of the next one.
#[verifier::ext_equal]
pub struct Outcome {
    pub core: UlpState,
    pub mem: Seq<u8>,
    pub next: u32,
}

/// Effect of an operation whose encoding is `len` bytes long. A halting
/// operation stays put.
pub open spec fn executed(s: UlpState, mem: Seq<u8>, op: Op, len: u32) -> Outcome {
    let pc = s.pc;
    let seq_next = pc.wrapping_add(len);
    match op {
        Op::Nop => Outcome { core: s, mem, next: seq_next },
        Op::Halt => Outcome { core: UlpState { halted: true, ..s }, mem, next: pc },
        Op::LoadImm { rd, imm } => Outcome { core: s.with_x(rd, imm), mem, next: seq_next },
        Op::AddPc { rd, imm } => Outcome {
            core: s.with_x(rd, pc.wrapping_add(imm)),
            mem,
            next: seq_next,
        },
        Op::Jump { off } => Outcome { core: s, mem, next: pc.wrapping_add(off) },
        Op::JumpLink { rd, off } => Outcome {
            core: s.with_x(rd, seq_next),
            mem,
            next: pc.wrapping_add(off),
        },
        Op::JumpLinkReg { rd, rs1, imm, mask } => Outcome {
            core: s.with_x(rd, seq_next),
            mem,
            next: s.x[rs1 as int].wrapping_add(imm) & mask,
        },
        Op::Branch { funct3, rs1, rs2, off } => Outcome {
            core: s,
            mem,
            next: if branch_taken(funct3, s.x[rs1 as int], s.x[rs2 as int]) {
                pc.wrapping_add(off)
            } else {
                seq_next
            },
        },
        Op::BranchZero { rs1, when_zero, off } => Outcome {
            core: s,
            mem,
            next: if (s.x[rs1 as int] == 0) == when_zero {
                pc.wrapping_add(off)
            } else {
                seq_next
            },
        },
        Op::Load { funct3, rd, rs1, imm } => Outcome {
            core: s.with_x(rd, loaded(s, mem, s.x[rs1 as int].wrapping_add(imm), funct3)),
            mem,
            next: seq_next,
        },
        Op::Store { funct3, rs1, rs2, imm } => {
            let addr = s.x[rs1 as int].wrapping_add(imm);
            Outcome {
                core: slots_after_store(s, addr, s.x[rs2 as int], funct3),
                mem: mem_after_store(mem, addr, s.x[rs2 as int], funct3),
                next: seq_next,
            }
        },
        Op::AluImm { funct3, arith, rd, rs1, imm } => Outcome {
            core: s.with_x(rd, alu_imm(funct3, arith, s.x[rs1 as int], imm)),
            mem,
            next: seq_next,
        },
        Op::Alu { funct7, funct3, rd, rs1, rs2 } => Outcome {
            core: s.with_x(rd, alu_reg(funct7, funct3, s.x[rs1 as int], s.x[rs2 as int])),
            mem,
            next: seq_next,
        },
    }
}

/// The 32-bit encoding at byte offset `off`.
pub open spec fn fetched32(mem: Seq<u8>, off: int) -> u32 {
    (crate::bytes::half_at(mem, off) as u32) | ((crate::bytes::half_at(mem, off + 2) as u32) << 16)
}

/// The operation at the PC, which lies in `RTC_SLOW_MEM`. An encoding whose low
/// two bits are both set is 32 bits long, any other 16.
pub open spec fn current_op(s: UlpState, mem: Seq<u8>) -> Op {
    let off = s.pc - RTC_SLOW_BASE;
    let lo = crate::bytes::half_at(mem, off);
    if lo & 0x3 == 0x3 {
        decode32(fetched32(mem, off))
    } else {
        decode16(lo as u32)
    }
}

/// Outcome of the instruction at the PC.
pub open spec fn instruction(s: UlpState, mem: Seq<u8>) -> Outcome {
    let lo = crate::bytes::half_at(mem, s.pc - RTC_SLOW_BASE);
    executed(s, mem, current_op(s, mem), if lo & 0x3 == 0x3 { 4 } else { 2 })
}

/// The core after one step. A PC outside `RTC_SLOW_MEM` stops it.
pub open spec fn stepped(s: UlpState, mem: Seq<u8>) -> UlpState {
    if !s.is_running() {
        s
    } else if !in_slow_mem(s.pc) {
        s.stopped()
    } else {
        let o = instruction(s, mem);
        if o.core.halted {
            o.core.stopped()
        } else {
            UlpState { pc: o.next, ..o.core }
        }
    }
}

/// The memory after one step.
pub open spec fn stepped_mem(s: UlpState, mem: Seq<u8>) -> Seq<u8> {
    if s.is_running() && in_slow_mem(s.pc) {
        instruction(s, mem).mem
    } else {
        mem
    }
}

/// The ULP-RISC-V core: register file and control, with the surrounding
/// register block (control, status and `reg` slots).
pub struct Ulp {
    pub regs: [u32; REG_COUNT],
    x: [u32; 32],
    pc: u32,
    running: bool,
    halted: bool,
}

impl View for Ulp {
    type V = UlpState;

    closed spec fn view(&self) -> UlpState {
        UlpState {
            regs: self.regs@,
            x: self.x@,
            pc: self.pc,
            running: self.running,
            halted: self.halted,
        }
    }
}

impl Default for Ulp {
    fn default() -> (ulp: Self)
        ensures
            ulp@ == UlpState::reset(),
    {
        Self::new()
    }
}

impl Clone for Ulp {
    fn clone(&self) -> (ulp: Self)
        ensures
            ulp@ == self@,
    {
        Ulp {
            regs: self.regs,
            x: self.x,
            pc: self.pc,
            running: self.running,
            halted: self.halted,
        }
    }
}

impl Ulp {
    pub fn new() -> (ulp: Self)
        ensures
            ulp@ == UlpState::reset(),
            ulp@.wf(),
    {
        let ulp = Ulp {
            regs: [0u32; REG_COUNT],
            x: [0u32; 32],
            pc: RTC_SLOW_BASE,
            running: false,
            halted: false,
        };
        assert(ulp@ =~= UlpState::reset());
        ulp
    }

    /// Word index of `offset`, if the block holds it.
    fn idx(offset: u32) -> (i: Option<usize>)
        ensures
            i == if in_block(offset) {
                Some(((offset - ULP_BASE) / 4) as usize)
            } else {
                None
            },
    {
        if ULP_BASE <= offset && offset - ULP_BASE < 0x100 {
            Some(((offset - ULP_BASE) / 4) as usize)
        } else {
            None
        }
    }

    /// Read a register word; `offset` is the full peripheral address. Addresses
    /// outside the block read as 0.
    pub fn read32(&mut self, offset: u32) -> (v: u32)
        ensures
            v == old(self)@.read(offset),
            final(self)@ == old(self)@,
    {
        match Self::idx(offset) {
            Some(i) => self.regs[i],
            None => 0,
        }
    }

    /// Write a register word; `offset` is the full peripheral address. A write
    /// outside the block is ignored.
    pub fn write32(&mut self, offset: u32, value: u32)
        ensures
            final(self)@ == old(self)@.write(offset, value),
            old(self)@.wf() ==> final(self)@.wf(),
    {
        if let Some(i) = Self::idx(offset) {
            self.regs[i] = value;
        }
        if offset == ULP_BASE + CORE_OFF {
            if value & 1 != 0 {
                self.running = true;
                self.halted = false;
                self.pc = RTC_SLOW_BASE;
                self.x = [0u32; 32];
            }
            if value & 2 != 0 {
                self.running = false;
            }
        }
        assert(self@ =~= old(self)@.write(offset, value));
    }

    /// True if the core is executing (started, not halted).
    pub fn is_running(&self) -> (r: bool)
        ensures
            r == self@.is_running(),
    {
        self.running && !self.halted
    }

    /// Run one instruction. `rtc_slow` is the code/data memory.
    pub fn step(&mut self, rtc_slow: &mut [u8])
        ensures
            final(self)@ == stepped(old(self)@, old(rtc_slow)@),
            final(rtc_slow)@ == stepped_mem(old(self)@, old(rtc_slow)@),
    {
        if !self.is_running() {
            return;
        }
        let pc: u32 = self.pc;
        if !(RTC_SLOW_BASE <= pc && pc < RTC_SLOW_BASE + RTC_SLOW_SIZE) {
            self.halted = true;
            self.regs[DEBUG_IDX] = self.regs[DEBUG_IDX] | 1;
            assert(self@ =~= stepped(old(self)@, old(rtc_slow)@));
            return;
        }
        let off: usize = (pc - RTC_SLOW_BASE) as usize;
        let lo: u16 = load_half(rtc_slow, off);
        let next: u32 = if (lo & 0x3) == 0x3 {
            let hi: u16 = load_half(rtc_slow, off + 2);
            self.exec((lo as u32) | ((hi as u32) << 16), rtc_slow)
        } else {
            self.exec16(lo, rtc_slow)
        };
        if self.halted {
            self.regs[DEBUG_IDX] = self.regs[DEBUG_IDX] | 1;
            assert(self@ =~= stepped(old(self)@, old(rtc_slow)@));
            return;
        }
        self.pc = next;
        assert(self@ =~= stepped(old(self)@, old(rtc_slow)@));
    }

    /// Execute one 32-bit instruction. Returns the next PC.
    fn exec(&mut self, insn: u32, mem: &mut [u8]) -> (next: u32)
        ensures
            (Outcome { core: final(self)@, mem: final(mem)@, next }) == executed(
                old(self)@,
                old(mem)@,
                decode32(insn),
                4,
            ),
    {
        self.run(get_decode32(insn), 4, mem)
    }

    /// Execute one 16-bit (compressed) instruction. Returns the next PC.
    fn exec16(&mut self, insn: u16, mem: &mut [u8]) -> (next: u32)
        ensures
            (Outcome { core: final(self)@, mem: final(mem)@, next }) == executed(
                old(self)@,
                old(mem)@,
                decode16(insn as u32),
                2,
            ),
    {
        self.run(get_decode16(insn as u32), 2, mem)
    }

    /// Write a register; a write to `x0` is lost.
    fn set_x(&mut self, rd: u32, v: u32)
        requires
            rd < 32,
        ensures
            final(self)@ == old(self)@.with_x(rd, v),
    {
        if rd != 0 {
            self.x[rd as usize] = v;
        }
        assert(self@ =~= old(self)@.with_x(rd, v));
    }

    /// Execute one decoded operation. Returns the next PC.
    fn run(&mut self, op: Op, len: u32, mem: &mut [u8]) -> (next: u32)
        requires
            op.wf(),
        ensures
            (Outcome { core: final(self)@, mem: final(mem)@, next }) == executed(
                old(self)@,
                old(mem)@,
                op,
                len,
            ),
    {
        let pc: u32 = self.pc;
        let seq_next: u32 = pc.wrapping_add(len);
        let mut next: u32 = seq_next;
        match op {
            Op::Nop => {},
            Op::Halt => {
                self.halted = true;
                next = pc;
            },
            Op::LoadImm { rd, imm } => {
                self.set_x(rd, imm);
            },
            Op::AddPc { rd, imm } => {
                self.set_x(rd, pc.wrapping_add(imm));
            },
            Op::Jump { off } => {
                next = pc.wrapping_add(off);
            },
            Op::JumpLink { rd, off } => {
                self.set_x(rd, seq_next);
                next = pc.wrapping_add(off);
            },
            Op::JumpLinkReg { rd, rs1, imm, mask } => {
                next = self.x[rs1 as usize].wrapping_add(imm) & mask;
                self.set_x(rd, seq_next);
            },
            Op::Branch { funct3, rs1, rs2, off } => {
                if take_branch(funct3, self.x[rs1 as usize], self.x[rs2 as usize]) {
                    next = pc.wrapping_add(off);
                }
            },
            Op::BranchZero { rs1, when_zero, off } => {
                if (self.x[rs1 as usize] == 0) == when_zero {
                    next = pc.wrapping_add(off);
                }
            },
            Op::Load { funct3, rd, rs1, imm } => {
                let addr: u32 = self.x[rs1 as usize].wrapping_add(imm);
                let v: u32 = self.load(mem, addr, funct3);
                self.set_x(rd, v);
            },
            Op::Store { funct3, rs1, rs2, imm } => {
                let addr: u32 = self.x[rs1 as usize].wrapping_add(imm);
                let v: u32 = self.x[rs2 as usize];
                self.store(mem, addr, v, funct3);
            },
            Op::AluImm { funct3, arith, rd, rs1, imm } => {
                let v: u32 = compute_imm(funct3, arith, self.x[rs1 as usize], imm);
                self.set_x(rd, v);
            },
            Op::Alu { funct7, funct3, rd, rs1, rs2 } => {
                let a: u32 = self.x[rs1 as usize];
                let b: u32 = self.x[rs2 as usize];
                self.set_x(rd, compute_reg(funct7, funct3, a, b));
            },
        }
        assert(self@ =~= executed(old(self)@, old(mem)@, op, len).core);
        next
    }

    /// Load from the `reg` slots or `RTC_SLOW_MEM`; other addresses read as 0.
    fn load(&self, mem: &[u8], addr: u32, funct3: u32) -> (v: u32)
        ensures
            v == loaded(self@, mem@, addr, funct3),
    {
        if ULP_BASE + REG_SLOT_OFF <= addr && addr < ULP_BASE + ULP_OFF_END {
            let v: u32 = match Self::idx(addr) {
                Some(i) => self.regs[i],
                None => 0,
            };
            match funct3 {
                0 => sext(v, 8),
                1 => sext(v, 16),
                4 => v & 0xFF,
                5 => v & 0xFFFF,
                _ => v,
            }
        } else if RTC_SLOW_BASE <= addr && addr < RTC_SLOW_BASE + RTC_SLOW_SIZE {
            let off: usize = (addr - RTC_SLOW_BASE) as usize;
            match funct3 {
                0 => sext(load_byte(mem, off) as u32, 8),
                1 => sext(load_half(mem, off) as u32, 16),
                4 => load_byte(mem, off) as u32,
                5 => load_half(mem, off) as u32,
                _ => load_word(mem, off),
            }
        } else {
            0
        }
    }

    /// Store to the `reg` slots or `RTC_SLOW_MEM`; other stores are ignored.
    fn store(&mut self, mem: &mut [u8], addr: u32, v: u32, funct3: u32)
        ensures
            final(self)@ == slots_after_store(old(self)@, addr, v, funct3),
            final(mem)@ == mem_after_store(old(mem)@, addr, v, funct3),
    {
        if ULP_BASE + REG_SLOT_OFF <= addr && addr < ULP_BASE + ULP_OFF_END {
            if let Some(i) = Self::idx(addr) {
                let cur: u32 = self.regs[i];
                self.regs[i] = match funct3 {
                    0 => (v & 0xFF) | (cur & 0xFFFF_FF00),
                    1 => (v & 0xFFFF) | (cur & 0xFFFF_0000),
                    _ => v,
                };
            }
        } else if RTC_SLOW_BASE <= addr && addr < RTC_SLOW_BASE + RTC_SLOW_SIZE {
            let off: usize = (addr - RTC_SLOW_BASE) as usize;
            match funct3 {
                0 => store_byte(mem, off, lane(v, 0)),
                1 => store_half(mem, off, v),
                _ => store_word(mem, off, v),
            }
        }
        assert(self@ =~= slots_after_store(old(self)@, addr, v, funct3));
    }
}

/// A register word reads back what was written to it.
pub proof fn law_register_round_trip(s: UlpState, addr: u32, v: u32)
    requires
        s.wf(),
        in_block(addr),
    ensures
        s.write(addr, v).read(addr) == v,
        s.write(addr, v).wf(),
{
}

/// `sw_start` without `sw_stall` releases the core at the start of
/// `RTC_SLOW_MEM` with cleared registers, whatever state it was in.
pub proof fn law_start_releases_core(s: UlpState, v: u32)
    requires
        s.wf(),
        v & 1 != 0,
        v & 2 == 0,
    ensures
        s.write(ULP_BASE, v).is_running(),
        s.write(ULP_BASE, v).pc == RTC_SLOW_BASE,
        forall|i: int| 0 <= i < 32 ==> s.write(ULP_BASE, v).x[i] == 0,
{
}

/// `sw_stall` stops the core.
pub proof fn law_stall_stops_core(s: UlpState, v: u32)
    requires
        s.wf(),
        v & 2 != 0,
    ensures
        !s.write(ULP_BASE, v).is_running(),
{
}

/// A core that is not running does nothing, however often it is stepped.
pub proof fn law_stopped_core_is_inert(s: UlpState, mem: Seq<u8>)
    requires
        !s.is_running(),
    ensures
        stepped(s, mem) == s,
        stepped_mem(s, mem) == mem,
{
}

/// A running core that reaches a halting operation (`ebreak` or an illegal
/// encoding), or leaves `RTC_SLOW_MEM`, stops and raises the `debug` halted
/// flag; its registers, PC and memory stay as they were.
pub proof fn law_halt_raises_debug_flag(s: UlpState, mem: Seq<u8>)
    requires
        s.wf(),
        s.is_running(),
        in_slow_mem(s.pc) ==> current_op(s, mem) == Op::Halt,
    ensures
        !stepped(s, mem).is_running(),
        stepped(s, mem).regs[DEBUG_IDX as int] & 1 == 1,
        stepped(s, mem).x == s.x,
        stepped(s, mem).pc == s.pc,
        stepped_mem(s, mem) == mem,
{
    broadcast use crate::bits::lemma_or_sets;
}

/// `ebreak` is a halting operation.
pub proof fn law_ebreak_halts()
    ensures
        decode32(0x0010_0073) == Op::Halt,
        decode16(0x9002) == Op::Halt,
{
    crate::bits::lemma_constants();
}

/// An operation keeps the state well formed.
proof fn lemma_executed_wf(s: UlpState, mem: Seq<u8>, op: Op, len: u32)
    requires
        s.wf(),
    ensures
        executed(s, mem, op, len).core.wf(),
{
}

proof fn lemma_stepped_wf(s: UlpState, mem: Seq<u8>, op: Op, len: u32)
    requires
        s.wf(),
        op == current_op(s, mem),
        len == if crate::bytes::half_at(mem, s.pc - RTC_SLOW_BASE) & 0x3 == 0x3 {
            4u32
        } else {
            2u32
        },
    ensures
        stepped(s, mem).wf(),
{
    lemma_executed_wf(s, mem, op, len);
    assert(instruction(s, mem) == executed(s, mem, op, len));
}

/// Stepping keeps the state well formed and the memory its size.
pub proof fn law_step_keeps_shape(s: UlpState, mem: Seq<u8>)
    requires
        s.wf(),
    ensures
        stepped(s, mem).wf(),
        stepped_mem(s, mem).len() == mem.len(),
{
    lemma_stepped_mem_len(s, mem);
    lemma_stepped_wf(
        s,
        mem,
        current_op(s, mem),
        if crate::bytes::half_at(mem, s.pc - RTC_SLOW_BASE) & 0x3 == 0x3 {
            4
        } else {
            2
        },
    );
}

/// Stepping keeps the memory its size.
pub proof fn lemma_stepped_mem_len(s: UlpState, mem: Seq<u8>)
    ensures
        stepped_mem(s, mem).len() == mem.len(),
{
}

/// Register `x0` reads as zero after any step, whatever the instruction writes.
pub proof fn law_zero_register(s: UlpState, mem: Seq<u8>)
    requires
        s.wf(),
    ensures
        stepped(s, mem).x[0] == 0,
{
    law_step_keeps_shape(s, mem);
}

/// Signed division is exact: the quotient times the divisor plus the remainder
/// is the dividend, and the remainder is smaller than the divisor and has the
/// dividend's sign.
pub proof fn law_signed_division(a: u32, b: u32)
    requires
        b != 0,
    ensures
        quotient(a, b) * signed(b) + remainder(a, b) == signed(a),
        magnitude(remainder(a, b)) < magnitude(signed(b)),
        signed(a) >= 0 ==> remainder(a, b) >= 0,
        signed(a) < 0 ==> remainder(a, b) <= 0,
{
    let (x, y) = (signed(a), signed(b));
    let (m, n) = (magnitude(x), magnitude(y));
    vstd::arithmetic::div_mod::lemma_fundamental_div_mod(m, n);
    vstd::arithmetic::div_mod::lemma_mod_bound(m, n);
    let q = m / n;
    assert(n * q == q * n && (-q) * n == -(q * n) && q * (-n) == -(q * n) && (-q) * (-n) == q * n)
        by (nonlinear_arith);
}

/// Each store width is loaded back as the value it keeps, and leaves every byte
/// outside its width alone.
pub proof fn law_narrow_store_load(mem: Seq<u8>, off: int, v: u32, i: int)
    requires
        0 <= off,
        off + 2 <= mem.len(),
        0 <= i < mem.len(),
    ensures
        mem_view(mem_merge(mem, off, v, 0), off, 4) == v & 0xFF,
        mem_view(mem_merge(mem, off, v, 1), off, 5) == v & 0xFFFF,
        i != off ==> mem_merge(mem, off, v, 0)[i] == mem[i],
        i != off && i != off + 1 ==> mem_merge(mem, off, v, 1)[i] == mem[i],
{
    crate::bytes::lemma_low_lanes(v);
}

/// A step changes memory only through a store operation, and then at most the
/// four bytes from the addressed one on: every other byte is kept.
pub proof fn law_step_memory_frame(s: UlpState, mem: Seq<u8>, addr: u32, i: int)
    requires
        s.wf(),
        0 <= i < mem.len(),
        current_op(s, mem) matches Op::Store { rs1, imm, .. } ==> s.x[rs1 as int].wrapping_add(imm)
            == addr,
        i < addr - RTC_SLOW_BASE || addr - RTC_SLOW_BASE + 4 <= i,
    ensures
        stepped_mem(s, mem)[i] == mem[i],
{
}

/// A word stored to a `reg` slot or to `RTC_SLOW_MEM` is loaded back.
pub proof fn law_store_load_round_trip(s: UlpState, mem: Seq<u8>, addr: u32, v: u32)
    requires
        s.wf(),
        mem.len() == RTC_SLOW_SIZE,
        in_slots(addr) && in_block(addr) || RTC_SLOW_BASE <= addr <= RTC_SLOW_BASE + RTC_SLOW_SIZE
            - 4,
    ensures
        loaded(slots_after_store(s, addr, v, 2), mem_after_store(mem, addr, v, 2), addr, 2) == v,
{
    if !in_slots(addr) {
        crate::bytes::lemma_word_read_back(mem, addr - RTC_SLOW_BASE, v);
    }
}

} // verus!
