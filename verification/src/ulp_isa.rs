//! The instruction set of the ULP core, by its assembler encodings: what a step does
//! when the PC stands on an encoded instruction.

use crate::memmap::{RTC_SLOW_BASE, RTC_SLOW_SIZE};
use crate::ulp::{Op, UlpState};
use vstd::prelude::*;

verus! {

/// R-type encoding.
pub open spec fn r_type(funct7: u32, rs2: u32, rs1: u32, funct3: u32, rd: u32, opcode: u32) -> u32 {
    (funct7 << 25) | (rs2 << 20) | (rs1 << 15) | (funct3 << 12) | (rd << 7) | opcode
}

/// I-type encoding.
pub open spec fn i_type(imm: u32, rs1: u32, funct3: u32, rd: u32, opcode: u32) -> u32 {
    (imm << 20) | (rs1 << 15) | (funct3 << 12) | (rd << 7) | opcode
}

/// S-type encoding.
pub open spec fn s_type(imm: u32, rs2: u32, rs1: u32, funct3: u32, opcode: u32) -> u32 {
    (((imm >> 5) & 0x7F) << 25) | (rs2 << 20) | (rs1 << 15) | (funct3 << 12) | ((imm & 0x1F) << 7)
        | opcode
}

/// B-type encoding of a branch by `off` bytes.
pub open spec fn b_type(off: u32, rs2: u32, rs1: u32, funct3: u32) -> u32 {
    (((off >> 12) & 1) << 31) | (((off >> 5) & 0x3F) << 25) | (rs2 << 20) | (rs1 << 15) | (funct3
        << 12) | (((off >> 1) & 0xF) << 8) | (((off >> 11) & 1) << 7) | 0x63
}

/// U-type encoding.
pub open spec fn u_type(imm: u32, rd: u32, opcode: u32) -> u32 {
    (imm & 0xFFFF_F000) | (rd << 7) | opcode
}

/// J-type encoding of a jump by `off` bytes.
pub open spec fn j_type(off: u32, rd: u32) -> u32 {
    (((off >> 20) & 1) << 31) | (((off >> 1) & 0x3FF) << 21) | (((off >> 11) & 1) << 20) | (((off
        >> 12) & 0xFF) << 12) | (rd << 7) | 0x6F
}

/// The fields of an encoding come out as they went in.
proof fn lemma_r_fields(funct7: u32, rs2: u32, rs1: u32, funct3: u32, rd: u32, opcode: u32)
    by (bit_vector)
    requires
        funct7 < 128,
        rs2 < 32,
        rs1 < 32,
        funct3 < 8,
        rd < 32,
        opcode < 128,
        opcode & 3 == 3,
    ensures
        ({
            let w = r_type(funct7, rs2, rs1, funct3, rd, opcode);
            &&& w & 0x7F == opcode
            &&& (w >> 7) & 0x1F == rd
            &&& (w >> 12) & 7 == funct3
            &&& (w >> 15) & 0x1F == rs1
            &&& (w >> 20) & 0x1F == rs2
            &&& (w >> 25) & 0x7F == funct7
            &&& w & 3 == 3
        }),
{
}

proof fn lemma_i_fields(imm: u32, rs1: u32, funct3: u32, rd: u32, opcode: u32)
    by (bit_vector)
    requires
        imm <= 0x7FF || imm >= 0xFFFF_F800,
        rs1 < 32,
        funct3 < 8,
        rd < 32,
        opcode < 128,
        opcode & 3 == 3,
    ensures
        ({
            let w = i_type(imm, rs1, funct3, rd, opcode);
            &&& w & 0x7F == opcode
            &&& (w >> 7) & 0x1F == rd
            &&& (w >> 12) & 7 == funct3
            &&& (w >> 15) & 0x1F == rs1
            &&& ((w >> 25) & 0x7F) & 0x20 == (imm & 0x400) >> 5
            &&& crate::bits::sign_extended(w >> 20, 12) == imm
            &&& w & 3 == 3
            &&& 0x20u32 != 0
        }),
{
}

proof fn lemma_s_fields(imm: u32, rs2: u32, rs1: u32, funct3: u32, opcode: u32)
    by (bit_vector)
    requires
        imm <= 0x7FF || imm >= 0xFFFF_F800,
        rs2 < 32,
        rs1 < 32,
        funct3 < 8,
        opcode < 128,
        opcode & 3 == 3,
    ensures
        ({
            let w = s_type(imm, rs2, rs1, funct3, opcode);
            &&& w & 0x7F == opcode
            &&& (w >> 12) & 7 == funct3
            &&& (w >> 15) & 0x1F == rs1
            &&& (w >> 20) & 0x1F == rs2
            &&& crate::bits::sign_extended(((w >> 25) << 5) | ((w >> 7) & 0x1F), 12) == imm
            &&& w & 3 == 3
        }),
{
}

proof fn lemma_jump_fields(off: u32, rs2: u32, rs1: u32, funct3: u32, rd: u32, opcode: u32)
    by (bit_vector)
    requires
        off & 1 == 0,
        rs2 < 32,
        rs1 < 32,
        funct3 < 8,
        rd < 32,
        opcode < 128,
        opcode & 3 == 3,
    ensures
        off <= 0xFFF || off >= 0xFFFF_F000 ==> ({
            let w = b_type(off, rs2, rs1, funct3);
            &&& w & 0x7F == 0x63
            &&& (w >> 12) & 7 == funct3
            &&& (w >> 15) & 0x1F == rs1
            &&& (w >> 20) & 0x1F == rs2
            &&& crate::ulp::imm_b(w) == off
            &&& w & 3 == 3
        }),
        off <= 0xF_FFFF || off >= 0xFFF0_0000 ==> ({
            let w = j_type(off, rd);
            &&& w & 0x7F == 0x6F
            &&& (w >> 7) & 0x1F == rd
            &&& crate::ulp::imm_j(w) == off
            &&& w & 3 == 3
        }),
        ({
            let w = u_type(off, rd, opcode);
            &&& w & 0x7F == opcode
            &&& (w >> 7) & 0x1F == rd
            &&& w & 0xFFFF_F000 == off & 0xFFFF_F000
            &&& w & 3 == 3
        }),
{
}

/// Bytes, halfwords and words in arithmetic.
proof fn lemma_byte_sums(b0: u8, b1: u8, b2: u8, b3: u8)
    by (bit_vector)
    ensures
        ((b0 as u32) | ((b1 as u32) << 8) | ((b2 as u32) << 16) | ((b3 as u32) << 24)) == b0 + 0x100
            * b1 + 0x1_0000 * b2 + 0x100_0000 * b3,
        ((((b0 as u16) | ((b1 as u16) << 8)) as u32) | ((((b2 as u16) | ((b3 as u16) << 8)) as u32)
            << 16)) == b0 + 0x100 * b1 + 0x1_0000 * b2 + 0x100_0000 * b3,
        ((b0 as u16) | ((b1 as u16) << 8)) & 3 == 3 <==> b0 & 3 == 3,
        ((b0 as u32) | ((b1 as u32) << 8) | ((b2 as u32) << 16) | ((b3 as u32) << 24)) & 3 == 3
            <==> b0 & 3 == 3,
        ((b0 as u16) | ((b1 as u16) << 8)) == b0 + 0x100 * b1,
        b0 < 0x80 ==> crate::bits::sign_extended(b0 as u32, 8) == b0,
        b0 >= 0x80 ==> crate::bits::sign_extended(b0 as u32, 8) == 0xFFFF_FF00 + b0,
        b1 < 0x80 ==> crate::bits::sign_extended(((b0 as u16) | ((b1 as u16) << 8)) as u32, 16) == b0
            + 0x100 * b1,
        b1 >= 0x80 ==> crate::bits::sign_extended(((b0 as u16) | ((b1 as u16) << 8)) as u32, 16)
            == 0xFFFF_0000 + b0 + 0x100 * b1,
{
}

/// Masks, shifts and lanes of a word in arithmetic.
proof fn lemma_word_parts(w: u32)
    by (bit_vector)
    ensures
        w % 2 == 0 <==> w & 1 == 0,
        w % 4 == 0 <==> w & 3 == 0,
        w % 16 == 0 <==> w & 0xF == 0,
        w % 32 == w & 0x1F,
        w & 0xFFFF_FFFE == w - w % 2,
        w & 0xFFFF_F000 == w - w % 0x1000,
        (w << 12) & 1 == 0,
        (w << 12) & 0xFFFF_F000 == w << 12,
        ((w >> 0u32) & 0xFF) as u8 == w % 0x100,
        ((w >> 8u32) & 0xFF) as u8 == (w / 0x100) % 0x100,
        ((w >> 16u32) & 0xFF) as u8 == (w / 0x1_0000) % 0x100,
        ((w >> 24u32) & 0xFF) as u8 == w / 0x100_0000,
{
}

/// Shift amounts, and the encodings that carry them.
proof fn lemma_shifts(n: u32, rs1: u32, rd: u32)
    by (bit_vector)
    requires
        n < 32,
    ensures
        (n & 0x400) >> 5 == 0,
        ((n | 0x400) & 0x400) >> 5 != 0,
        n & 0x1F == n,
        (n | 0x400) & 0x1F == n,
        n | 0x400 == n + 0x400,
        r_type(0, n, rs1, 1, rd, 0x13) == i_type(n, rs1, 1, rd, 0x13),
        r_type(0, n, rs1, 5, rd, 0x13) == i_type(n, rs1, 5, rd, 0x13),
        r_type(0x20, n, rs1, 5, rd, 0x13) == i_type((n + 0x400) as u32, rs1, 5, rd, 0x13),
{
}

/// The integer that a word stands for in two's complement.
pub open spec fn int_of(a: u32) -> int {
    if a >= 0x8000_0000 {
        a - 0x1_0000_0000
    } else {
        a as int
    }
}

/// The word that holds an integer modulo 2^32.
pub open spec fn word_of(v: int) -> u32 {
    (v % 0x1_0000_0000) as u32
}

/// The core runs and its PC stands on the 32-bit encoding `insn`, whose bytes lie in
/// memory in little-endian order.
pub open spec fn at_insn(s: UlpState, mem: Seq<u8>, insn: u32) -> bool {
    let o = s.pc - RTC_SLOW_BASE;
    &&& s.wf()
    &&& s.running && !s.halted
    &&& mem.len() == RTC_SLOW_SIZE
    &&& 0 <= o && o + 4 <= mem.len()
    &&& insn == mem[o] + 0x100 * mem[o + 1] + 0x1_0000 * mem[o + 2] + 0x100_0000 * mem[o + 3]
}

/// One step writes `v` to register `rd`, goes on with the next 32-bit instruction and
/// does nothing else. Register 0 keeps its zero.
pub open spec fn step_writes(s: UlpState, mem: Seq<u8>, rd: u32, v: u32) -> bool {
    &&& crate::ulp::stepped_mem(s, mem) == mem
    &&& crate::ulp::stepped(s, mem) == (UlpState {
        pc: (s.pc + 4) as u32,
        x: if rd == 0 {
            s.x
        } else {
            s.x.update(rd as int, v)
        },
        ..s
    })
}

/// One step goes to `target` and does nothing else.
pub open spec fn step_goes(s: UlpState, mem: Seq<u8>, target: int) -> bool {
    &&& crate::ulp::stepped_mem(s, mem) == mem
    &&& crate::ulp::stepped(s, mem) == (UlpState { pc: target as u32, ..s })
}

/// The instruction that the step decodes is the one that stands at the PC.
proof fn lemma_fetch(s: UlpState, mem: Seq<u8>, insn: u32)
    requires
        at_insn(s, mem, insn),
        insn & 3 == 3,
    ensures
        crate::ulp::current_op(s, mem) == crate::ulp::decode32(insn),
        crate::ulp::instruction(s, mem) == crate::ulp::executed(
            s,
            mem,
            crate::ulp::decode32(insn),
            4,
        ),
        crate::ulp::in_slow_mem(s.pc),
{
    let o = s.pc - RTC_SLOW_BASE;
    lemma_byte_sums(mem[o], mem[o + 1], mem[o + 2], mem[o + 3]);
}

/// Conditional branches: BEQ, BNE, BLT, BGE, BLTU and BGEU jump by their offset
/// exactly when the registers are equal, are not, are less or not less as signed
/// numbers, and less or not less as unsigned ones; else the next instruction follows.
pub proof fn law_branches(s: UlpState, mem: Seq<u8>, rs1: u32, rs2: u32, off: int)
    requires
        rs1 < 32,
        rs2 < 32,
        -0x1000 <= off < 0x1000,
        off % 2 == 0,
    ensures
        ({
            let (a, b) = (s.x[rs1 as int], s.x[rs2 as int]);
            let w = word_of(off);
            let next = s.pc + 4;
            let far = s.pc + off;
            &&& at_insn(s, mem, b_type(w, rs2, rs1, 0)) ==> step_goes(
                s,
                mem,
                if a == b { far } else { next },
            )
            &&& at_insn(s, mem, b_type(w, rs2, rs1, 1)) ==> step_goes(
                s,
                mem,
                if a == b { next } else { far },
            )
            &&& at_insn(s, mem, b_type(w, rs2, rs1, 4)) ==> step_goes(
                s,
                mem,
                if int_of(a) < int_of(b) { far } else { next },
            )
            &&& at_insn(s, mem, b_type(w, rs2, rs1, 5)) ==> step_goes(
                s,
                mem,
                if int_of(a) < int_of(b) { next } else { far },
            )
            &&& at_insn(s, mem, b_type(w, rs2, rs1, 6)) ==> step_goes(
                s,
                mem,
                if a < b { far } else { next },
            )
            &&& at_insn(s, mem, b_type(w, rs2, rs1, 7)) ==> step_goes(
                s,
                mem,
                if a < b { next } else { far },
            )
        }),
{
    let w = word_of(off);
    assert forall|f: u32| f < 8 && at_insn(s, mem, #[trigger] b_type(w, rs2, rs1, f)) implies
        step_goes(
        s,
        mem,
        if crate::ulp::branch_taken(f, s.x[rs1 as int], s.x[rs2 as int]) {
            s.pc + off
        } else {
            s.pc + 4
        },
    ) by {
        lemma_branch(s, mem, f, rs1, rs2, off);
    }
}

proof fn lemma_branch(s: UlpState, mem: Seq<u8>, f: u32, rs1: u32, rs2: u32, off: int)
    requires
        f < 8,
        rs1 < 32,
        rs2 < 32,
        -0x1000 <= off < 0x1000,
        off % 2 == 0,
        at_insn(s, mem, b_type(word_of(off), rs2, rs1, f)),
    ensures
        step_goes(
            s,
            mem,
            if crate::ulp::branch_taken(f, s.x[rs1 as int], s.x[rs2 as int]) {
                s.pc + off
            } else {
                s.pc + 4
            },
        ),
{
    let w = word_of(off);
    lemma_word_parts(w);
    crate::bits::lemma_constants();
    lemma_jump_fields(w, rs2, rs1, f, 0, 0x63);
    lemma_fetch(s, mem, b_type(w, rs2, rs1, f));
}

/// JAL jumps by its offset, with the address of the next instruction left in `rd`.
pub proof fn law_jump(s: UlpState, mem: Seq<u8>, rd: u32, off: int)
    requires
        rd < 32,
        -0x10_0000 <= off < 0x10_0000,
        off % 2 == 0,
        at_insn(s, mem, j_type(word_of(off), rd)),
    ensures
        crate::ulp::stepped_mem(s, mem) == mem,
        crate::ulp::stepped(s, mem) == (UlpState {
            pc: (s.pc + off) as u32,
            x: if rd == 0 {
                s.x
            } else {
                s.x.update(rd as int, (s.pc + 4) as u32)
            },
            ..s
        }),
{
    let w = word_of(off);
    lemma_word_parts(w);
    crate::bits::lemma_constants();
    lemma_jump_fields(w, 0, 0, 0, rd, 0x6F);
    lemma_fetch(s, mem, j_type(w, rd));
}

/// JALR jumps to the even address that a register and an offset make, with the
/// address of the next instruction left in `rd`.
pub proof fn law_register_jump(s: UlpState, mem: Seq<u8>, rd: u32, rs1: u32, off: int)
    requires
        rd < 32,
        rs1 < 32,
        -0x800 <= off < 0x800,
        at_insn(s, mem, i_type(word_of(off), rs1, 0, rd, 0x67)),
    ensures
        ({
            let t = word_of(s.x[rs1 as int] + off);
            &&& crate::ulp::stepped_mem(s, mem) == mem
            &&& crate::ulp::stepped(s, mem) == (UlpState {
                pc: (t - t % 2) as u32,
                x: if rd == 0 {
                    s.x
                } else {
                    s.x.update(rd as int, (s.pc + 4) as u32)
                },
                ..s
            })
        }),
{
    let w = word_of(off);
    crate::bits::lemma_constants();
    lemma_i_fields(w, rs1, 0, rd, 0x67);
    lemma_fetch(s, mem, i_type(w, rs1, 0, rd, 0x67));
    lemma_word_parts(word_of(s.x[rs1 as int] + off));
    assert(s.x[rs1 as int].wrapping_add(w) == word_of(s.x[rs1 as int] + off));
}

/// LUI loads the upper bits, AUIPC adds them to the PC.
pub proof fn law_upper_immediates(s: UlpState, mem: Seq<u8>, rd: u32, upper: u32)
    requires
        rd < 32,
        upper < 0x10_0000,
    ensures
        at_insn(s, mem, u_type((upper * 0x1000) as u32, rd, 0x37)) ==> step_writes(
            s,
            mem,
            rd,
            (upper * 0x1000) as u32,
        ),
        at_insn(s, mem, u_type((upper * 0x1000) as u32, rd, 0x17)) ==> step_writes(
            s,
            mem,
            rd,
            word_of(s.pc + upper * 0x1000),
        ),
{
    let w = (upper * 0x1000) as u32;
    lemma_word_parts(w);
    crate::bits::lemma_constants();
    lemma_jump_fields(w, 0, 0, 0, rd, 0x37);
    lemma_jump_fields(w, 0, 0, 0, rd, 0x17);
    if at_insn(s, mem, u_type(w, rd, 0x37)) {
        lemma_fetch(s, mem, u_type(w, rd, 0x37));
    }
    if at_insn(s, mem, u_type(w, rd, 0x17)) {
        lemma_fetch(s, mem, u_type(w, rd, 0x17));
    }
}

proof fn lemma_alu_imm(s: UlpState, mem: Seq<u8>, f: u32, rd: u32, rs1: u32, imm: u32)
    requires
        f < 8,
        rd < 32,
        rs1 < 32,
        imm <= 0x7FF || imm >= 0xFFFF_F800,
        at_insn(s, mem, i_type(imm, rs1, f, rd, 0x13)),
    ensures
        step_writes(
            s,
            mem,
            rd,
            crate::ulp::alu_imm(f, (imm & 0x400) >> 5 != 0, s.x[rs1 as int], imm),
        ),
{
    crate::bits::lemma_constants();
    lemma_i_fields(imm, rs1, f, rd, 0x13);
    lemma_fetch(s, mem, i_type(imm, rs1, f, rd, 0x13));
}

/// Immediate arithmetic: ADDI, SLTI, SLTIU, XORI, ORI and ANDI, with the immediate
/// sign-extended.
pub proof fn law_immediate_arithmetic(s: UlpState, mem: Seq<u8>, rd: u32, rs1: u32, imm: int)
    requires
        rd < 32,
        rs1 < 32,
        -0x800 <= imm < 0x800,
    ensures
        ({
            let a = s.x[rs1 as int];
            let w = word_of(imm);
            &&& at_insn(s, mem, i_type(w, rs1, 0, rd, 0x13)) ==> step_writes(
                s,
                mem,
                rd,
                word_of(a + imm),
            )
            &&& at_insn(s, mem, i_type(w, rs1, 2, rd, 0x13)) ==> step_writes(
                s,
                mem,
                rd,
                if int_of(a) < imm { 1 } else { 0 },
            )
            &&& at_insn(s, mem, i_type(w, rs1, 3, rd, 0x13)) ==> step_writes(
                s,
                mem,
                rd,
                if a < w { 1 } else { 0 },
            )
            &&& at_insn(s, mem, i_type(w, rs1, 4, rd, 0x13)) ==> step_writes(s, mem, rd, a ^ w)
            &&& at_insn(s, mem, i_type(w, rs1, 6, rd, 0x13)) ==> step_writes(s, mem, rd, a | w)
            &&& at_insn(s, mem, i_type(w, rs1, 7, rd, 0x13)) ==> step_writes(s, mem, rd, a & w)
        }),
{
    let w = word_of(imm);
    assert forall|f: u32| f < 8 && at_insn(s, mem, #[trigger] i_type(w, rs1, f, rd, 0x13)) implies
        step_writes(
        s,
        mem,
        rd,
        crate::ulp::alu_imm(f, (w & 0x400) >> 5 != 0, s.x[rs1 as int], w),
    ) by {
        lemma_alu_imm(s, mem, f, rd, rs1, w);
    }
}

/// Immediate shifts: SLLI, SRLI and SRAI shift by 0 to 31 bits, left with zeros,
/// right with zeros and right with the sign.
pub proof fn law_immediate_shifts(s: UlpState, mem: Seq<u8>, rd: u32, rs1: u32, n: u32)
    requires
        rd < 32,
        rs1 < 32,
        n < 32,
    ensures
        ({
            let a = s.x[rs1 as int];
            &&& at_insn(s, mem, r_type(0, n, rs1, 1, rd, 0x13)) ==> step_writes(s, mem, rd, a << n)
            &&& at_insn(s, mem, r_type(0, n, rs1, 5, rd, 0x13)) ==> step_writes(s, mem, rd, a >> n)
            &&& at_insn(s, mem, r_type(0x20, n, rs1, 5, rd, 0x13)) ==> step_writes(
                s,
                mem,
                rd,
                ((a as i32) >> n) as u32,
            )
        }),
{
    let m = (n + 0x400) as u32;
    lemma_shifts(n, rs1, rd);
    if at_insn(s, mem, r_type(0, n, rs1, 1, rd, 0x13)) {
        lemma_alu_imm(s, mem, 1, rd, rs1, n);
    }
    if at_insn(s, mem, r_type(0, n, rs1, 5, rd, 0x13)) {
        lemma_alu_imm(s, mem, 5, rd, rs1, n);
    }
    if at_insn(s, mem, r_type(0x20, n, rs1, 5, rd, 0x13)) {
        lemma_alu_imm(s, mem, 5, rd, rs1, m);
    }
}

/// The core stands on a register operation.
pub open spec fn at_alu(
    s: UlpState,
    mem: Seq<u8>,
    funct7: u32,
    funct3: u32,
    rd: u32,
    rs1: u32,
    rs2: u32,
) -> bool {
    at_insn(s, mem, r_type(funct7, rs2, rs1, funct3, rd, 0x33))
}

proof fn lemma_alu(
    s: UlpState,
    mem: Seq<u8>,
    funct7: u32,
    funct3: u32,
    rd: u32,
    rs1: u32,
    rs2: u32,
)
    requires
        funct7 < 128,
        funct3 < 8,
        rd < 32,
        rs1 < 32,
        rs2 < 32,
        at_alu(s, mem, funct7, funct3, rd, rs1, rs2),
    ensures
        step_writes(
            s,
            mem,
            rd,
            crate::ulp::alu_reg(funct7, funct3, s.x[rs1 as int], s.x[rs2 as int]),
        ),
{
    crate::bits::lemma_constants();
    lemma_r_fields(funct7, rs2, rs1, funct3, rd, 0x33);
    lemma_fetch(s, mem, r_type(funct7, rs2, rs1, funct3, rd, 0x33));
}

/// Register arithmetic: ADD, SUB, SLL, SLT, SLTU, XOR, SRL, SRA, OR and AND. Shifts go
/// by the low five bits of the second operand.
pub proof fn law_register_arithmetic(s: UlpState, mem: Seq<u8>, rd: u32, rs1: u32, rs2: u32)
    requires
        rd < 32,
        rs1 < 32,
        rs2 < 32,
    ensures
        ({
            let (a, b) = (s.x[rs1 as int], s.x[rs2 as int]);
            let n = b % 32;
            &&& at_alu(s, mem, 0, 0, rd, rs1, rs2) ==> step_writes(s, mem, rd, word_of(a + b))
            &&& at_alu(s, mem, 0x20, 0, rd, rs1, rs2) ==> step_writes(s, mem, rd, word_of(a - b))
            &&& at_alu(s, mem, 0, 1, rd, rs1, rs2) ==> step_writes(s, mem, rd, a << n)
            &&& at_alu(s, mem, 0, 2, rd, rs1, rs2) ==> step_writes(
                s,
                mem,
                rd,
                if int_of(a) < int_of(b) { 1 } else { 0 },
            )
            &&& at_alu(s, mem, 0, 3, rd, rs1, rs2) ==> step_writes(
                s,
                mem,
                rd,
                if a < b { 1 } else { 0 },
            )
            &&& at_alu(s, mem, 0, 4, rd, rs1, rs2) ==> step_writes(s, mem, rd, a ^ b)
            &&& at_alu(s, mem, 0, 5, rd, rs1, rs2) ==> step_writes(s, mem, rd, a >> n)
            &&& at_alu(s, mem, 0x20, 5, rd, rs1, rs2) ==> step_writes(
                s,
                mem,
                rd,
                ((a as i32) >> n) as u32,
            )
            &&& at_alu(s, mem, 0, 6, rd, rs1, rs2) ==> step_writes(s, mem, rd, a | b)
            &&& at_alu(s, mem, 0, 7, rd, rs1, rs2) ==> step_writes(s, mem, rd, a & b)
        }),
{
    lemma_word_parts(s.x[rs2 as int]);
    assert forall|f7: u32, f3: u32|
        f7 < 128 && f3 < 8 && #[trigger] at_alu(s, mem, f7, f3, rd, rs1, rs2) implies step_writes(
        s,
        mem,
        rd,
        crate::ulp::alu_reg(f7, f3, s.x[rs1 as int], s.x[rs2 as int]),
    ) by {
        lemma_alu(s, mem, f7, f3, rd, rs1, rs2);
    }
}

/// Multiplication: MUL gives the low word of the product, MULH, MULHSU and MULHU the
/// high word of the signed, mixed and unsigned one.
pub proof fn law_multiplication(s: UlpState, mem: Seq<u8>, rd: u32, rs1: u32, rs2: u32)
    requires
        rd < 32,
        rs1 < 32,
        rs2 < 32,
    ensures
        ({
            let (a, b) = (s.x[rs1 as int], s.x[rs2 as int]);
            let m = 0x1_0000_0000int;
            &&& at_alu(s, mem, 1, 0, rd, rs1, rs2) ==> step_writes(s, mem, rd, word_of(a * b))
            &&& at_alu(s, mem, 1, 1, rd, rs1, rs2) ==> step_writes(
                s,
                mem,
                rd,
                word_of((int_of(a) * int_of(b)) / m),
            )
            &&& at_alu(s, mem, 1, 2, rd, rs1, rs2) ==> step_writes(
                s,
                mem,
                rd,
                word_of((int_of(a) * b) / m),
            )
            &&& at_alu(s, mem, 1, 3, rd, rs1, rs2) ==> step_writes(
                s,
                mem,
                rd,
                word_of((a * b) / m),
            )
        }),
{
    let (a, b) = (s.x[rs1 as int], s.x[rs2 as int]);
    assert forall|f7: u32, f3: u32|
        f7 < 128 && f3 < 8 && #[trigger] at_alu(s, mem, f7, f3, rd, rs1, rs2) implies step_writes(
        s,
        mem,
        rd,
        crate::ulp::alu_reg(f7, f3, a, b),
    ) by {
        lemma_alu(s, mem, f7, f3, rd, rs1, rs2);
    }
}

/// Division: DIV and REM divide signed numbers toward zero, DIVU and REMU unsigned
/// ones. A division by zero gives all ones and leaves the dividend.
pub proof fn law_division(s: UlpState, mem: Seq<u8>, rd: u32, rs1: u32, rs2: u32, q: int, r: int)
    requires
        rd < 32,
        rs1 < 32,
        rs2 < 32,
    ensures
        ({
            let (a, b) = (s.x[rs1 as int], s.x[rs2 as int]);
            let (x, y) = (int_of(a), int_of(b));
            &&& b != 0 && x == q * y + r && (0 <= x ==> 0 <= r) && (x <= 0 ==> r <= 0) && -(if y
                < 0 { -y } else { y }) < r < (if y < 0 { -y } else { y }) ==> {
                &&& at_alu(s, mem, 1, 4, rd, rs1, rs2) ==> step_writes(s, mem, rd, word_of(q))
                &&& at_alu(s, mem, 1, 6, rd, rs1, rs2) ==> step_writes(s, mem, rd, word_of(r))
            }
            &&& b != 0 && a == q * b + r && 0 <= r < b ==> {
                &&& at_alu(s, mem, 1, 5, rd, rs1, rs2) ==> step_writes(s, mem, rd, word_of(q))
                &&& at_alu(s, mem, 1, 7, rd, rs1, rs2) ==> step_writes(s, mem, rd, word_of(r))
            }
            &&& b == 0 ==> {
                &&& at_alu(s, mem, 1, 4, rd, rs1, rs2) ==> step_writes(s, mem, rd, 0xFFFF_FFFF)
                &&& at_alu(s, mem, 1, 5, rd, rs1, rs2) ==> step_writes(s, mem, rd, 0xFFFF_FFFF)
                &&& at_alu(s, mem, 1, 6, rd, rs1, rs2) ==> step_writes(s, mem, rd, a)
                &&& at_alu(s, mem, 1, 7, rd, rs1, rs2) ==> step_writes(s, mem, rd, a)
            }
        }),
{
    let (a, b) = (s.x[rs1 as int], s.x[rs2 as int]);
    let (x, y) = (int_of(a), int_of(b));
    assert forall|f7: u32, f3: u32|
        f7 < 128 && f3 < 8 && #[trigger] at_alu(s, mem, f7, f3, rd, rs1, rs2) implies step_writes(
        s,
        mem,
        rd,
        crate::ulp::alu_reg(f7, f3, a, b),
    ) by {
        lemma_alu(s, mem, f7, f3, rd, rs1, rs2);
    }
    if b != 0 && x == q * y + r && (0 <= x ==> 0 <= r) && (x <= 0 ==> r <= 0) && -(if y < 0 {
        -y
    } else {
        y
    }) < r < (if y < 0 { -y } else { y }) {
        crate::ulp::law_signed_division(a, b);
        lemma_quotient_unique(
            q,
            r,
            crate::ulp::quotient(a, b),
            crate::ulp::remainder(a, b),
            x,
            y,
        );
    }
    if b != 0 && a == q * b + r && 0 <= r < b {
        vstd::arithmetic::div_mod::lemma_fundamental_div_mod_converse(
            a as int,
            b as int,
            q,
            r,
        );
    }
}

/// A division toward zero has one quotient and one remainder.
proof fn lemma_quotient_unique(q: int, r: int, q2: int, r2: int, x: int, y: int)
    requires
        y != 0,
        x == q * y + r,
        x == q2 * y + r2,
        0 <= x ==> 0 <= r && 0 <= r2,
        x <= 0 ==> r <= 0 && r2 <= 0,
        -(if y < 0 { -y } else { y }) < r < (if y < 0 { -y } else { y }),
        -(if y < 0 { -y } else { y }) < r2 < (if y < 0 { -y } else { y }),
    ensures
        q == q2,
        r == r2,
{
    let d = q - q2;
    assert(d * y == r2 - r) by (nonlinear_arith)
        requires
            x == q * y + r,
            x == q2 * y + r2,
            d == q - q2,
    ;
    let n = if y < 0 { -y } else { y };
    if d != 0 {
        assert(d * y >= n || d * y <= -n) by (nonlinear_arith)
            requires
                d != 0,
                n == (if y < 0 { -y } else { y }),
                y != 0,
        ;
        assert(false);
    }
    assert(q * y == q2 * y);
}

proof fn lemma_load(s: UlpState, mem: Seq<u8>, f: u32, rd: u32, rs1: u32, off: int)
    requires
        f < 8,
        rd < 32,
        rs1 < 32,
        -0x800 <= off < 0x800,
        at_insn(s, mem, i_type(word_of(off), rs1, f, rd, 0x03)),
    ensures
        step_writes(
            s,
            mem,
            rd,
            crate::ulp::loaded(s, mem, word_of(s.x[rs1 as int] + off), f),
        ),
{
    let w = word_of(off);
    crate::bits::lemma_constants();
    lemma_i_fields(w, rs1, f, rd, 0x03);
    lemma_fetch(s, mem, i_type(w, rs1, f, rd, 0x03));
    assert(s.x[rs1 as int].wrapping_add(w) == word_of(s.x[rs1 as int] + off));
}

/// Loads from `RTC_SLOW_MEM`: LB, LH and LW take one, two or four bytes in
/// little-endian order and extend them with the sign; LBU and LHU extend with zeros.
pub proof fn law_loads(s: UlpState, mem: Seq<u8>, rd: u32, rs1: u32, off: int)
    requires
        rd < 32,
        rs1 < 32,
        -0x800 <= off < 0x800,
        RTC_SLOW_BASE <= word_of(s.x[rs1 as int] + off) <= RTC_SLOW_BASE + RTC_SLOW_SIZE - 4,
    ensures
        ({
            let o = word_of(s.x[rs1 as int] + off) - RTC_SLOW_BASE;
            let byte = mem[o] as int;
            let half = mem[o] + 0x100 * mem[o + 1];
            let word = half + 0x1_0000 * mem[o + 2] + 0x100_0000 * mem[o + 3];
            let w = word_of(off);
            &&& at_insn(s, mem, i_type(w, rs1, 0, rd, 0x03)) ==> step_writes(
                s,
                mem,
                rd,
                word_of(if byte >= 0x80 { byte - 0x100 } else { byte }),
            )
            &&& at_insn(s, mem, i_type(w, rs1, 1, rd, 0x03)) ==> step_writes(
                s,
                mem,
                rd,
                word_of(if half >= 0x8000 { half - 0x1_0000 } else { half }),
            )
            &&& at_insn(s, mem, i_type(w, rs1, 2, rd, 0x03)) ==> step_writes(
                s,
                mem,
                rd,
                word as u32,
            )
            &&& at_insn(s, mem, i_type(w, rs1, 4, rd, 0x03)) ==> step_writes(
                s,
                mem,
                rd,
                byte as u32,
            )
            &&& at_insn(s, mem, i_type(w, rs1, 5, rd, 0x03)) ==> step_writes(
                s,
                mem,
                rd,
                half as u32,
            )
        }),
{
    let o = word_of(s.x[rs1 as int] + off) - RTC_SLOW_BASE;
    lemma_byte_sums(mem[o], mem[o + 1], mem[o + 2], mem[o + 3]);
    let w = word_of(off);
    if at_insn(s, mem, i_type(w, rs1, 0, rd, 0x03)) {
        lemma_load(s, mem, 0, rd, rs1, off);
    }
    if at_insn(s, mem, i_type(w, rs1, 1, rd, 0x03)) {
        lemma_load(s, mem, 1, rd, rs1, off);
    }
    if at_insn(s, mem, i_type(w, rs1, 2, rd, 0x03)) {
        lemma_load(s, mem, 2, rd, rs1, off);
    }
    if at_insn(s, mem, i_type(w, rs1, 4, rd, 0x03)) {
        lemma_load(s, mem, 4, rd, rs1, off);
    }
    if at_insn(s, mem, i_type(w, rs1, 5, rd, 0x03)) {
        lemma_load(s, mem, 5, rd, rs1, off);
    }
}

proof fn lemma_store(s: UlpState, mem: Seq<u8>, f: u32, rs1: u32, rs2: u32, off: int)
    requires
        f < 8,
        rs1 < 32,
        rs2 < 32,
        -0x800 <= off < 0x800,
        at_insn(s, mem, s_type(word_of(off), rs2, rs1, f, 0x23)),
    ensures
        ({
            let addr = word_of(s.x[rs1 as int] + off);
            let v = s.x[rs2 as int];
            &&& crate::ulp::stepped_mem(s, mem) == crate::ulp::mem_after_store(mem, addr, v, f)
            &&& crate::ulp::stepped(s, mem) == (UlpState {
                pc: (s.pc + 4) as u32,
                ..crate::ulp::slots_after_store(s, addr, v, f)
            })
        }),
{
    let w = word_of(off);
    crate::bits::lemma_constants();
    lemma_s_fields(w, rs2, rs1, f, 0x23);
    lemma_fetch(s, mem, s_type(w, rs2, rs1, f, 0x23));
    assert(s.x[rs1 as int].wrapping_add(w) == word_of(s.x[rs1 as int] + off));
}

/// Stores to `RTC_SLOW_MEM`: SB, SH and SW put the low one, two or four bytes of a
/// register into memory in little-endian order; every other byte, and all of the
/// core but its PC, stays.
pub proof fn law_stores(s: UlpState, mem: Seq<u8>, rs1: u32, rs2: u32, off: int, f: u32)
    requires
        rs1 < 32,
        rs2 < 32,
        -0x800 <= off < 0x800,
        f <= 2,
        RTC_SLOW_BASE <= word_of(s.x[rs1 as int] + off) <= RTC_SLOW_BASE + RTC_SLOW_SIZE - 4,
        at_insn(s, mem, s_type(word_of(off), rs2, rs1, f, 0x23)),
    ensures
        ({
            let o = word_of(s.x[rs1 as int] + off) - RTC_SLOW_BASE;
            let v = s.x[rs2 as int];
            let after = crate::ulp::stepped_mem(s, mem);
            &&& after.len() == mem.len()
            &&& after[o] == v % 0x100
            &&& f >= 1 ==> after[o + 1] == (v / 0x100) % 0x100
            &&& f == 2 ==> after[o + 2] == (v / 0x1_0000) % 0x100 && after[o + 3] == v / 0x100_0000
            &&& forall|i: int|
                0 <= i < mem.len() && !(o <= i < o + (if f == 0 {
                    1int
                } else if f == 1 {
                    2
                } else {
                    4
                })) ==> #[trigger] after[i] == mem[i]
            &&& crate::ulp::stepped(s, mem) == (UlpState { pc: (s.pc + 4) as u32, ..s })
        }),
{
    lemma_store(s, mem, f, rs1, rs2, off);
    lemma_word_parts(s.x[rs2 as int]);
}

/// The shared slots: SW puts a word into a slot, where the main processor reads it
/// at the same address, and LW takes it from there. Memory and the other slots stay.
pub proof fn law_slot_accesses(s: UlpState, mem: Seq<u8>, rd: u32, rs1: u32, rs2: u32, off: int)
    requires
        rd < 32,
        rs1 < 32,
        rs2 < 32,
        -0x800 <= off < 0x800,
        0x6000_810C <= word_of(s.x[rs1 as int] + off) < 0x6000_8200,
        s.wf(),
    ensures
        ({
            let addr = word_of(s.x[rs1 as int] + off);
            let after = crate::ulp::stepped(s, mem);
            &&& at_insn(s, mem, s_type(word_of(off), rs2, rs1, 2, 0x23)) ==> {
                &&& after.read(addr) == s.x[rs2 as int]
                &&& crate::ulp::stepped_mem(s, mem) == mem
                &&& after.x == s.x && after.pc == s.pc + 4
                &&& forall|i: int|
                    0 <= i < 64 && i != (addr - 0x6000_8100) / 4 ==> #[trigger] after.regs[i]
                        == s.regs[i]
            }
            &&& at_insn(s, mem, i_type(word_of(off), rs1, 2, rd, 0x03)) ==> step_writes(
                s,
                mem,
                rd,
                s.regs[(addr - 0x6000_8100) / 4],
            )
        }),
{
    if at_insn(s, mem, s_type(word_of(off), rs2, rs1, 2, 0x23)) {
        lemma_store(s, mem, 2, rs1, rs2, off);
    }
    if at_insn(s, mem, i_type(word_of(off), rs1, 2, rd, 0x03)) {
        lemma_load(s, mem, 2, rd, rs1, off);
    }
}

/// EBREAK stops the core where it stands and tells the main processor so.
pub proof fn law_break_stops(s: UlpState, mem: Seq<u8>)
    requires
        at_insn(s, mem, 0x0010_0073),
    ensures
        ({
            let after = crate::ulp::stepped(s, mem);
            &&& after.halted
            &&& after.regs[2] & 1 == 1
            &&& after.pc == s.pc
            &&& after.x == s.x
            &&& crate::ulp::stepped_mem(s, mem) == mem
        }),
{
    crate::ulp::law_ebreak_halts();
    crate::bits::lemma_constants();
    lemma_fetch(s, mem, 0x0010_0073);
    crate::bits::lemma_or_sets(s.regs[2], 1);
}

/// Both encodings do the same, but for their length.
pub open spec fn same_effect(s: UlpState, mem: Seq<u8>, short: u32, long: u32) -> bool {
    crate::ulp::executed(s, mem, crate::ulp::decode16(short), 2) == crate::ulp::executed(
        s,
        mem,
        crate::ulp::decode32(long),
        2,
    )
}

/// CI-type encoding with a 6-bit immediate.
pub open spec fn ci_type(funct3: u32, imm: u32, rd: u32, quad: u32) -> u32 {
    (funct3 << 13) | (((imm >> 5) & 1) << 12) | (rd << 7) | ((imm & 0x1F) << 2) | quad
}

/// Encoding of the compressed operations on two low registers.
pub open spec fn ca_type(funct2: u32, rd: u32, sel: u32, rs2: u32) -> u32 {
    0x8001 | (funct2 << 10) | (rd << 7) | (sel << 5) | (rs2 << 2)
}

/// Encoding of C.SRLI, C.SRAI and C.ANDI.
pub open spec fn cb_alu_type(funct2: u32, imm: u32, rd: u32) -> u32 {
    0x8001 | (((imm >> 5) & 1) << 12) | (funct2 << 10) | (rd << 7) | ((imm & 0x1F) << 2)
}

/// Encoding of C.MV, C.ADD, C.JR and C.JALR.
pub open spec fn cr_type(four: u32, rd: u32, rs2: u32) -> u32 {
    0x8002 | (four << 12) | (rd << 7) | (rs2 << 2)
}

/// Encoding of C.J (`funct3` 5) and C.JAL (`funct3` 1).
pub open spec fn cj_type(funct3: u32, off: u32) -> u32 {
    (funct3 << 13) | (((off >> 11) & 1) << 12) | (((off >> 4) & 1) << 11) | (((off >> 8) & 3) << 9)
        | (((off >> 10) & 1) << 8) | (((off >> 6) & 1) << 7) | (((off >> 7) & 1) << 6) | (((off >> 1)
        & 7) << 3) | (((off >> 5) & 1) << 2) | 1
}

/// Encoding of C.BEQZ (`funct3` 6) and C.BNEZ (`funct3` 7).
pub open spec fn cb_type(funct3: u32, off: u32, rs1: u32) -> u32 {
    (funct3 << 13) | (((off >> 8) & 1) << 12) | (((off >> 3) & 3) << 10) | (rs1 << 7) | (((off >> 6)
        & 3) << 5) | (((off >> 1) & 3) << 3) | (((off >> 5) & 1) << 2) | 1
}

/// Encoding of C.LW (`funct3` 2) and C.SW (`funct3` 6).
pub open spec fn cl_type(funct3: u32, off: u32, rs1: u32, rd: u32) -> u32 {
    (funct3 << 13) | (((off >> 3) & 7) << 10) | (rs1 << 7) | (((off >> 2) & 1) << 6) | (((off >> 6)
        & 1) << 5) | (rd << 2)
}

/// Encoding of C.LWSP.
pub open spec fn c_lwsp(off: u32, rd: u32) -> u32 {
    0x4002 | (((off >> 5) & 1) << 12) | (rd << 7) | (((off >> 2) & 7) << 4) | (((off >> 6) & 3) << 2)
}

/// Encoding of C.SWSP.
pub open spec fn c_swsp(off: u32, rs2: u32) -> u32 {
    0xC002 | (((off >> 2) & 0xF) << 9) | (((off >> 6) & 3) << 7) | (rs2 << 2)
}

/// Encoding of C.ADDI4SPN.
pub open spec fn c_addi4spn(imm: u32, rd: u32) -> u32 {
    (((imm >> 4) & 3) << 11) | (((imm >> 6) & 0xF) << 7) | (((imm >> 2) & 1) << 6) | (((imm >> 3) & 1)
        << 5) | (rd << 2)
}

/// Encoding of C.ADDI16SP.
pub open spec fn c_addi16sp(imm: u32) -> u32 {
    0x6101 | (((imm >> 9) & 1) << 12) | (((imm >> 4) & 1) << 6) | (((imm >> 6) & 1) << 5) | (((imm
        >> 7) & 3) << 3) | (((imm >> 5) & 1) << 2)
}

proof fn lemma_ci_fields(funct3: u32, imm: u32, rd: u32, quad: u32)
    by (bit_vector)
    requires
        funct3 < 8,
        imm <= 0x1F || imm >= 0xFFFF_FFE0,
        rd < 32,
        quad < 4,
    ensures
        ({
            let w = ci_type(funct3, imm, rd, quad);
            &&& w & 3 == quad
            &&& (w >> 13) & 7 == funct3
            &&& (w >> 7) & 0x1F == rd
            &&& (w >> 2) & 0x1F == imm & 0x1F
            &&& crate::ulp::c_imm6(w) == imm
            &&& imm <= 0x1F ==> imm & 0x1F == imm
        }),
{
}

proof fn lemma_c_alu_fields(funct2: u32, imm: u32, rd: u32, sel: u32, rs2: u32)
    by (bit_vector)
    requires
        funct2 < 4,
        imm <= 0x1F || imm >= 0xFFFF_FFE0,
        rd < 8,
        sel < 4,
        rs2 < 8,
    ensures
        ({
            let w = ca_type(funct2, rd, sel, rs2);
            &&& w & 3 == 1
            &&& (w >> 13) & 7 == 4
            &&& (w >> 10) & 3 == funct2
            &&& (w >> 7) & 7 == rd
            &&& (w >> 5) & 3 == sel
            &&& (w >> 2) & 7 == rs2
            &&& (w >> 12) & 1 == 0
        }),
        ({
            let w = cb_alu_type(funct2, imm, rd);
            &&& w & 3 == 1
            &&& (w >> 13) & 7 == 4
            &&& (w >> 10) & 3 == funct2
            &&& (w >> 7) & 7 == rd
            &&& (w >> 2) & 0x1F == imm & 0x1F
            &&& crate::ulp::c_imm6(w) == imm
            &&& imm <= 0x1F ==> (w >> 12) & 1 == 0
            &&& imm <= 0x1F ==> imm & 0x1F == imm
        }),
{
}

proof fn lemma_cr_fields(four: u32, rd: u32, rs2: u32)
    by (bit_vector)
    requires
        four < 2,
        rd < 32,
        rs2 < 32,
    ensures
        ({
            let w = cr_type(four, rd, rs2);
            &&& w & 3 == 2
            &&& (w >> 13) & 7 == 4
            &&& (w >> 12) & 1 == four
            &&& (w >> 7) & 0x1F == rd
            &&& (w >> 2) & 0x1F == rs2
        }),
{
}

proof fn lemma_c_jump_fields(funct3: u32, off: u32, rs1: u32)
    by (bit_vector)
    requires
        funct3 < 8,
        off & 1 == 0,
        rs1 < 8,
    ensures
        off <= 0x7FF || off >= 0xFFFF_F800 ==> ({
            let w = cj_type(funct3, off);
            &&& w & 3 == 1
            &&& (w >> 13) & 7 == funct3
            &&& crate::ulp::c_j_imm(w) == off
        }),
        off <= 0xFF || off >= 0xFFFF_FF00 ==> ({
            let w = cb_type(funct3, off, rs1);
            &&& w & 3 == 1
            &&& (w >> 13) & 7 == funct3
            &&& (w >> 7) & 7 == rs1
            &&& crate::ulp::c_b_imm(w) == off
        }),
{
}

proof fn lemma_c_access_fields(funct3: u32, off: u32, rs1: u32, rd: u32, full: u32)
    by (bit_vector)
    requires
        funct3 < 8,
        off & 3 == 0,
        rs1 < 8,
        rd < 8,
        full < 32,
    ensures
        off <= 0x7F ==> ({
            let w = cl_type(funct3, off, rs1, rd);
            &&& w & 3 == 0
            &&& (w >> 13) & 7 == funct3
            &&& (w >> 7) & 7 == rs1
            &&& (w >> 2) & 7 == rd
            &&& crate::ulp::c_word_off(w) == off
        }),
        off <= 0xFF ==> ({
            let w = c_lwsp(off, full);
            &&& w & 3 == 2
            &&& (w >> 13) & 7 == 2
            &&& (w >> 7) & 0x1F == full
            &&& crate::ulp::c_lwsp_off(w) == off
        }),
        off <= 0xFF ==> ({
            let w = c_swsp(off, full);
            &&& w & 3 == 2
            &&& (w >> 13) & 7 == 6
            &&& (w >> 2) & 0x1F == full
            &&& crate::ulp::c_swsp_off(w) == off
        }),
        off <= 0x3FF ==> ({
            let w = c_addi4spn(off, rd);
            &&& w & 3 == 0
            &&& (w >> 13) & 7 == 0
            &&& (w >> 2) & 7 == rd
            &&& crate::ulp::c_addi4spn_imm(w) << 2 == off
            &&& crate::ulp::c_addi4spn_imm(w) == 0 <==> off == 0
        }),
        (off <= 0x1FF || off >= 0xFFFF_FE00) && off & 0xF == 0 ==> ({
            let w = c_addi16sp(off);
            &&& w & 3 == 1
            &&& (w >> 13) & 7 == 3
            &&& (w >> 7) & 0x1F == 2
            &&& crate::ulp::c_sp_imm(w) == off
        }),
{
}

/// Compressed immediate operations stand for their long forms: C.ADDI, C.LI and C.LUI.
pub proof fn law_compressed_immediates(s: UlpState, mem: Seq<u8>, rd: u32, imm: int)
    requires
        s.wf(),
        rd < 32,
        -32 <= imm < 32,
    ensures
        ({
            let w = word_of(imm);
            &&& same_effect(s, mem, ci_type(0, w, rd, 1), i_type(w, rd, 0, rd, 0x13))
            &&& same_effect(s, mem, ci_type(2, w, rd, 1), i_type(w, 0, 0, rd, 0x13))
            &&& rd != 0 && rd != 2 ==> same_effect(
                s,
                mem,
                ci_type(3, w, rd, 1),
                u_type(w << 12, rd, 0x37),
            )
        }),
{
    let w = word_of(imm);
    crate::bits::lemma_constants();
    lemma_ci_fields(0, w, rd, 1);
    lemma_ci_fields(2, w, rd, 1);
    lemma_ci_fields(3, w, rd, 1);
    lemma_i_fields(w, rd, 0, rd, 0x13);
    lemma_i_fields(w, 0, 0, rd, 0x13);
    lemma_word_parts(w);
    lemma_jump_fields(w << 12, 0, 0, 0, rd, 0x37);
}

/// Compressed operations on two registers: C.MV, C.ADD, C.SUB, C.XOR, C.OR and C.AND.
/// The last four name registers 8 to 15.
pub proof fn law_compressed_registers(s: UlpState, mem: Seq<u8>, rd: u32, rs2: u32)
    requires
        s.wf(),
        0 < rd < 32,
        0 < rs2 < 32,
    ensures
        same_effect(s, mem, cr_type(0, rd, rs2), r_type(0, rs2, 0, 0, rd, 0x33)),
        same_effect(s, mem, cr_type(1, rd, rs2), r_type(0, rs2, rd, 0, rd, 0x33)),
        8 <= rd < 16 && 8 <= rs2 < 16 ==> {
            let (d, r) = ((rd - 8) as u32, (rs2 - 8) as u32);
            &&& same_effect(s, mem, ca_type(3, d, 0, r), r_type(0x20, rs2, rd, 0, rd, 0x33))
            &&& same_effect(s, mem, ca_type(3, d, 1, r), r_type(0, rs2, rd, 4, rd, 0x33))
            &&& same_effect(s, mem, ca_type(3, d, 2, r), r_type(0, rs2, rd, 6, rd, 0x33))
            &&& same_effect(s, mem, ca_type(3, d, 3, r), r_type(0, rs2, rd, 7, rd, 0x33))
        },
{
    crate::bits::lemma_constants();
    lemma_cr_fields(0, rd, rs2);
    lemma_cr_fields(1, rd, rs2);
    lemma_r_fields(0, rs2, 0, 0, rd, 0x33);
    lemma_r_fields(0, rs2, rd, 0, rd, 0x33);
    if 8 <= rd < 16 && 8 <= rs2 < 16 {
        let (d, r) = ((rd - 8) as u32, (rs2 - 8) as u32);
        lemma_c_alu_fields(3, 0, d, 0, r);
        lemma_c_alu_fields(3, 0, d, 1, r);
        lemma_c_alu_fields(3, 0, d, 2, r);
        lemma_c_alu_fields(3, 0, d, 3, r);
        lemma_r_fields(0x20, rs2, rd, 0, rd, 0x33);
        lemma_r_fields(0, rs2, rd, 4, rd, 0x33);
        lemma_r_fields(0, rs2, rd, 6, rd, 0x33);
        lemma_r_fields(0, rs2, rd, 7, rd, 0x33);
    }
}

/// Compressed shifts and masks: C.SLLI, C.SRLI, C.SRAI and C.ANDI.
pub proof fn law_compressed_shifts(s: UlpState, mem: Seq<u8>, rd: u32, n: u32, imm: int)
    requires
        s.wf(),
        rd < 32,
        n < 32,
        -32 <= imm < 32,
    ensures
        same_effect(s, mem, ci_type(0, n, rd, 2), r_type(0, n, rd, 1, rd, 0x13)),
        8 <= rd < 16 ==> {
            let d = (rd - 8) as u32;
            let w = word_of(imm);
            &&& same_effect(s, mem, cb_alu_type(0, n, d), r_type(0, n, rd, 5, rd, 0x13))
            &&& same_effect(s, mem, cb_alu_type(1, n, d), r_type(0x20, n, rd, 5, rd, 0x13))
            &&& same_effect(s, mem, cb_alu_type(2, w, d), i_type(w, rd, 7, rd, 0x13))
        },
{
    crate::bits::lemma_constants();
    lemma_shifts(n, rd, rd);
    lemma_ci_fields(0, n, rd, 2);
    lemma_i_fields(n, rd, 1, rd, 0x13);
    if 8 <= rd < 16 {
        let d = (rd - 8) as u32;
        let w = word_of(imm);
        lemma_c_alu_fields(0, n, d, 0, 0);
        lemma_c_alu_fields(1, n, d, 0, 0);
        lemma_c_alu_fields(2, w, d, 0, 0);
        lemma_i_fields(n, rd, 5, rd, 0x13);
        lemma_i_fields((n + 0x400) as u32, rd, 5, rd, 0x13);
        lemma_i_fields(w, rd, 7, rd, 0x13);
    }
}

/// Compressed jumps: C.J, C.JAL, C.JR and C.JALR.
pub proof fn law_compressed_jumps(s: UlpState, mem: Seq<u8>, off: int, rs1: u32)
    requires
        s.wf(),
        -0x800 <= off < 0x800,
        off % 2 == 0,
        0 < rs1 < 32,
    ensures
        same_effect(s, mem, cj_type(5, word_of(off)), j_type(word_of(off), 0)),
        same_effect(s, mem, cj_type(1, word_of(off)), j_type(word_of(off), 1)),
        same_effect(s, mem, cr_type(0, rs1, 0), i_type(0, rs1, 0, 0, 0x67)),
        same_effect(s, mem, cr_type(1, rs1, 0), i_type(0, rs1, 0, 1, 0x67)),
{
    let w = word_of(off);
    lemma_word_parts(w);
    crate::bits::lemma_constants();
    lemma_c_jump_fields(5, w, 0);
    lemma_c_jump_fields(1, w, 0);
    lemma_jump_fields(w, 0, 0, 0, 0, 0x6F);
    lemma_jump_fields(w, 0, 0, 0, 1, 0x6F);
    lemma_cr_fields(0, rs1, 0);
    lemma_cr_fields(1, rs1, 0);
    lemma_i_fields(0, rs1, 0, 0, 0x67);
    lemma_i_fields(0, rs1, 0, 1, 0x67);
}

/// Compressed branches: C.BEQZ and C.BNEZ on registers 8 to 15.
pub proof fn law_compressed_branches(s: UlpState, mem: Seq<u8>, off: int, rs1: u32)
    requires
        s.wf(),
        -0x100 <= off < 0x100,
        off % 2 == 0,
        8 <= rs1 < 16,
    ensures
        same_effect(
            s,
            mem,
            cb_type(6, word_of(off), (rs1 - 8) as u32),
            b_type(word_of(off), 0, rs1, 0),
        ),
        same_effect(
            s,
            mem,
            cb_type(7, word_of(off), (rs1 - 8) as u32),
            b_type(word_of(off), 0, rs1, 1),
        ),
{
    let w = word_of(off);
    lemma_word_parts(w);
    crate::bits::lemma_constants();
    lemma_c_jump_fields(6, w, (rs1 - 8) as u32);
    lemma_c_jump_fields(7, w, (rs1 - 8) as u32);
    lemma_jump_fields(w, 0, rs1, 0, 0, 0x63);
    lemma_jump_fields(w, 0, rs1, 1, 0, 0x63);
}

/// Compressed accesses: C.LW and C.SW on registers 8 to 15, C.LWSP and C.SWSP on the
/// stack pointer.
pub proof fn law_compressed_accesses(s: UlpState, mem: Seq<u8>, off: u32, rs1: u32, rd: u32)
    requires
        s.wf(),
        off % 4 == 0,
        off <= 0xFF,
        0 < rd < 32,
    ensures
        same_effect(s, mem, c_lwsp(off, rd), i_type(off, 2, 2, rd, 0x03)),
        same_effect(s, mem, c_swsp(off, rd), s_type(off, rd, 2, 2, 0x23)),
        off <= 0x7F && 8 <= rs1 < 16 && 8 <= rd < 16 ==> {
            let (d, r) = ((rd - 8) as u32, (rs1 - 8) as u32);
            &&& same_effect(s, mem, cl_type(2, off, r, d), i_type(off, rs1, 2, rd, 0x03))
            &&& same_effect(s, mem, cl_type(6, off, r, d), s_type(off, rd, rs1, 2, 0x23))
        },
{
    lemma_word_parts(off);
    crate::bits::lemma_constants();
    lemma_c_access_fields(0, off, 0, 0, rd);
    lemma_i_fields(off, 2, 2, rd, 0x03);
    lemma_s_fields(off, rd, 2, 2, 0x23);
    if off <= 0x7F && 8 <= rs1 < 16 && 8 <= rd < 16 {
        let (d, r) = ((rd - 8) as u32, (rs1 - 8) as u32);
        lemma_c_access_fields(2, off, r, d, 0);
        lemma_c_access_fields(6, off, r, d, 0);
        lemma_i_fields(off, rs1, 2, rd, 0x03);
        lemma_s_fields(off, rd, rs1, 2, 0x23);
    }
}

/// Stack adjustments: C.ADDI4SPN and C.ADDI16SP.
pub proof fn law_compressed_stack(s: UlpState, mem: Seq<u8>, rd: u32, up: u32, imm: int)
    requires
        s.wf(),
        8 <= rd < 16,
        up % 4 == 0,
        0 < up <= 0x3FC,
        imm % 16 == 0,
        -0x200 <= imm < 0x200,
    ensures
        same_effect(s, mem, c_addi4spn(up, (rd - 8) as u32), i_type(up, 2, 0, rd, 0x13)),
        same_effect(s, mem, c_addi16sp(word_of(imm)), i_type(word_of(imm), 2, 0, 2, 0x13)),
{
    let w = word_of(imm);
    lemma_word_parts(up);
    lemma_word_parts(w);
    crate::bits::lemma_constants();
    lemma_c_access_fields(0, up, 0, (rd - 8) as u32, 0);
    lemma_c_access_fields(0, w, 0, 0, 0);
    lemma_i_fields(up, 2, 0, rd, 0x13);
    lemma_i_fields(w, 2, 0, 2, 0x13);
}

/// The core runs and its PC stands on the 16-bit encoding `short`.
pub open spec fn at_short(s: UlpState, mem: Seq<u8>, short: u32) -> bool {
    let o = s.pc - RTC_SLOW_BASE;
    &&& s.wf()
    &&& s.running && !s.halted
    &&& mem.len() == RTC_SLOW_SIZE
    &&& 0 <= o && o + 2 <= mem.len()
    &&& short == mem[o] + 0x100 * mem[o + 1]
    &&& short & 3 != 3
}

/// A compressed instruction takes two bytes: a step does what its long form does and
/// goes on behind them, unless it jumps.
pub proof fn law_short_step(s: UlpState, mem: Seq<u8>, short: u32, rd: u32, imm: int)
    requires
        at_short(s, mem, short),
    ensures
        ({
            let o = crate::ulp::executed(s, mem, crate::ulp::decode16(short), 2);
            !o.core.halted ==> crate::ulp::stepped(s, mem) == (UlpState { pc: o.next, ..o.core })
                && crate::ulp::stepped_mem(s, mem) == o.mem
        }),
        rd < 32 && -32 <= imm < 32 && short == ci_type(0, word_of(imm), rd, 1)
            ==> crate::ulp::stepped(s, mem) == (UlpState {
            pc: (s.pc + 2) as u32,
            x: if rd == 0 {
                s.x
            } else {
                s.x.update(rd as int, word_of(s.x[rd as int] + imm))
            },
            ..s
        }),
{
    let o = s.pc - RTC_SLOW_BASE;
    lemma_byte_sums(mem[o], mem[o + 1], 0, 0);
    if rd < 32 && -32 <= imm < 32 && short == ci_type(0, word_of(imm), rd, 1) {
        lemma_ci_fields(0, word_of(imm), rd, 1);
        assert(s.x[rd as int].wrapping_add(word_of(imm)) == word_of(s.x[rd as int] + imm));
    }
}

} // verus!
