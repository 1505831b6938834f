//! RISC-V: the saved registers, the breakpoint slots, and what the engine has
//! to know of the instruction at a probed address: how long it is, whether it
//! can be run from another place, and what it does where it cannot.
use self::trapframe::{
    get_reg, reg_value, set_reg, set_trapframe_pc, with_reg, TrapFrame,
};
use self::breakpoint::inject_breakpoints;
use super::super::kprobes::SingleStepType;
use super::super::osutils::{byte_copy, dealloc_page, KernelOp, PAGE_SIZE};
use riscv_decode::instruction_length;
use vstd::prelude::*;

pub mod breakpoint;
pub mod trapframe;

verus! {

/// The instructions that change the program counter or read it, which the
/// engine carries out itself, and `Other` for the rest.
#[derive(Clone, Copy, Debug, PartialEq, Eq, Structural)]
pub enum InsnOp {
    Auipc,
    Jal,
    Jalr,
    Beq,
    Bne,
    Blt,
    Bge,
    Bltu,
    Bgeu,
    CJ,
    CJr,
    CJalr,
    CBeqz,
    CBnez,
    Other,
}

/// The length in bytes of the instruction whose low 16 bits are `i`.
pub open spec fn insn_length_spec(i: u16) -> usize {
    if i & 0b11 != 0b11 {
        2
    } else if i & 0b11100 != 0b11100 {
        4
    } else if i & 0b111111 == 0b011111 {
        6
    } else if i & 0b1111111 == 0b011111 {
        8
    } else {
        (10 + 2 * ((i >> 12) & 0b111)) as usize
    }
}

/// `riscv_decode::instruction_length` tells the length of an instruction
/// from its low 16 bits: the contract repeats its five cases as they stand in
/// the decoder.
pub assume_specification[ riscv_decode::instruction_length ](i: u16) -> (n: usize)
    ensures
        n == insn_length_spec(i),
;

/// Whether the decoder knows the instruction with these bits.
pub uninterp spec fn decodes(insn: u32) -> bool;

/// Which of the instructions of 32 bits that the engine carries out itself
/// has these bits, if any: told by the opcode in the low seven bits and, for
/// the branches, the three bits from bit 12 on.
pub open spec fn base_op(insn: u32) -> Option<InsnOp> {
    let opcode = insn & 0x7f;
    let funct3 = (insn >> 12) & 0x7;
    if opcode == 0x17 {
        Some(InsnOp::Auipc)
    } else if opcode == 0x6f {
        Some(InsnOp::Jal)
    } else if opcode == 0x67 {
        Some(InsnOp::Jalr)
    } else if opcode == 0x63 {
        if funct3 == 0 {
            Some(InsnOp::Beq)
        } else if funct3 == 1 {
            Some(InsnOp::Bne)
        } else if funct3 == 4 {
            Some(InsnOp::Blt)
        } else if funct3 == 5 {
            Some(InsnOp::Bge)
        } else if funct3 == 6 {
            Some(InsnOp::Bltu)
        } else if funct3 == 7 {
            Some(InsnOp::Bgeu)
        } else {
            None
        }
    } else {
        None
    }
}

/// Which of the compressed jumps and branches has these 16 bits, if any.
pub open spec fn compressed_op(c: u16) -> Option<InsnOp> {
    if c & 0xe003 == 0xa001 {
        Some(InsnOp::CJ)
    } else if c & 0xe003 == 0xc001 {
        Some(InsnOp::CBeqz)
    } else if c & 0xe003 == 0xe001 {
        Some(InsnOp::CBnez)
    } else if c & 0xf07f == 0x8002 && c & 0x0f80 != 0 {
        Some(InsnOp::CJr)
    } else if c & 0xf07f == 0x9002 && c & 0x0f80 != 0 {
        Some(InsnOp::CJalr)
    } else {
        None
    }
}

/// What the decoder makes of 32 bits, as far as the engine cares: one of the
/// nine instructions of `base_op`, another instruction, or nothing.
pub open spec fn decoded(insn: u32) -> Option<InsnOp> {
    match base_op(insn) {
        Some(op) => Some(op),
        None => if decodes(insn) {
            Some(InsnOp::Other)
        } else {
            None
        },
    }
}

/// Calls `riscv_decode::decode` and tells its result apart: the variants
/// `Auipc`, `Jal`, `Jalr` and the six branches by name, any other
/// instruction as `Other`, an error as `None`. The decoder picks those nine
/// by the bits that `base_op` looks at, whatever the other bits are; which of
/// the remaining bit patterns it knows is left to `decodes`.
#[verifier::external_body]
fn decode_op(insn: u32) -> (r: Option<InsnOp>)
    ensures
        r == decoded(insn),
        r is Some <==> base_op(insn) is Some || decodes(insn),
{
    match riscv_decode::decode(insn) {
        Ok(riscv_decode::Instruction::Auipc(_)) => Some(InsnOp::Auipc),
        Ok(riscv_decode::Instruction::Jal(_)) => Some(InsnOp::Jal),
        Ok(riscv_decode::Instruction::Jalr(_)) => Some(InsnOp::Jalr),
        Ok(riscv_decode::Instruction::Beq(_)) => Some(InsnOp::Beq),
        Ok(riscv_decode::Instruction::Bne(_)) => Some(InsnOp::Bne),
        Ok(riscv_decode::Instruction::Blt(_)) => Some(InsnOp::Blt),
        Ok(riscv_decode::Instruction::Bge(_)) => Some(InsnOp::Bge),
        Ok(riscv_decode::Instruction::Bltu(_)) => Some(InsnOp::Bltu),
        Ok(riscv_decode::Instruction::Bgeu(_)) => Some(InsnOp::Bgeu),
        Ok(_) => Some(InsnOp::Other),
        Err(_) => None,
    }
}

/// The offset of a `jal`, before its sign is looked at.
pub open spec fn jtype_imm_spec(insn: u32) -> u32 {
    ((insn & 0x8000_0000) >> 11) | ((insn & 0x7fe0_0000) >> 20) | ((insn & 0x0010_0000) >> 9) | (
    insn & 0x000f_f000)
}

/// The offset of a branch, before its sign is looked at.
pub open spec fn btype_imm_spec(insn: u32) -> u32 {
    ((insn & 0x8000_0000) >> 19) | ((insn & 0x7e00_0000) >> 20) | ((insn & 0x0000_0f00) >> 7) | ((
    insn & 0x0000_0080) << 4)
}

/// `riscv_decode::types::JType::imm` puts the offset of a `jal` together
/// from its four fields; the contract is the expression that it computes.
#[verifier::external_body]
fn jtype_imm(insn: u32) -> (imm: u32)
    ensures
        imm == jtype_imm_spec(insn),
{
    riscv_decode::types::JType(insn).imm()
}

/// `riscv_decode::types::BType::imm` puts the offset of a branch together
/// from its four fields; the contract is the expression that it computes.
#[verifier::external_body]
fn btype_imm(insn: u32) -> (imm: u32)
    ensures
        imm == btype_imm_spec(insn),
{
    riscv_decode::types::BType(insn).imm()
}

/// The destination register of an instruction.
pub open spec fn rd_spec(insn: u32) -> u32 {
    (insn >> 7) & 0x1f
}

/// The first source register of an instruction.
pub open spec fn rs1_spec(insn: u32) -> u32 {
    (insn >> 15) & 0x1f
}

/// The second source register of an instruction.
pub open spec fn rs2_spec(insn: u32) -> u32 {
    (insn >> 20) & 0x1f
}

/// The offset of a `jalr`, before its sign is looked at.
pub open spec fn itype_imm_spec(insn: u32) -> u32 {
    insn >> 20
}

/// The upper immediate of an `auipc`.
pub open spec fn utype_imm_spec(insn: u32) -> u32 {
    insn & 0xffff_f000
}

/// The offset of a `c.j`, before its sign is looked at.
pub open spec fn cj_imm_spec(c: u32) -> u32 {
    ((c >> 1) & 0x800) | ((c << 2) & 0x400) | ((c >> 1) & 0x300) | ((c << 1) & 0x80) | ((c >> 1)
        & 0x40) | ((c << 3) & 0x20) | ((c >> 7) & 0x10) | ((c >> 2) & 0xe)
}

/// The offset of a `c.beqz` or `c.bnez`, before its sign is looked at.
pub open spec fn cb_imm_spec(c: u32) -> u32 {
    ((c >> 4) & 0x100) | ((c << 1) & 0xc0) | ((c << 3) & 0x20) | ((c >> 7) & 0x18) | ((c >> 2)
        & 0x6)
}

/// The register of a `c.jr` or `c.jalr`.
pub open spec fn c_rs1_spec(c: u32) -> u32 {
    (c >> 7) & 0x1f
}

/// The register of a `c.beqz` or `c.bnez`: one of `x8` to `x15`.
pub open spec fn cb_rs1_spec(c: u32) -> u32 {
    (8 + ((c >> 7) & 0x7)) as u32
}

/// The number that `value` stands for where `sign` is the value of its
/// highest bit: itself below `sign`, itself less twice `sign` from there on.
pub open spec fn sign_extend_spec(value: u32, sign: u32) -> int {
    if value >= sign {
        value - 2 * sign
    } else {
        value as int
    }
}

#[verifier::when_used_as_spec(sign_extend_isize)]
pub fn sign_extend(value: u32, sign: u32) -> (r: isize)
    requires
        0 < sign <= 0x8000_0000,
        value < 2 * sign,
    ensures
        r == sign_extend_spec(value, sign),
        r == sign_extend_isize(value, sign),
{
    if value >= sign {
        ((value - sign) as i64 - sign as i64) as isize
    } else {
        value as isize
    }
}

/// `sign_extend_spec` as a machine integer.
pub open spec fn sign_extend_isize(value: u32, sign: u32) -> isize {
    sign_extend_spec(value, sign) as isize
}

/// Whether `a` is below `b` where both are read as signed.
pub open spec fn signed_lt_spec(a: usize, b: usize) -> bool {
    if (a > isize::MAX) != (b > isize::MAX) {
        a > isize::MAX
    } else {
        a < b
    }
}

#[verifier::when_used_as_spec(signed_lt_spec)]
pub fn signed_lt(a: usize, b: usize) -> (r: bool)
    ensures
        r == signed_lt_spec(a, b),
{
    let a_neg = a > isize::MAX as usize;
    let b_neg = b > isize::MAX as usize;
    if a_neg != b_neg {
        a_neg
    } else {
        a < b
    }
}

/// The jump or branch that the instruction at a probed address is, if it is
/// one: `insn` holds the four bytes at the address, lowest first, of which a
/// compressed instruction takes the low two.
pub open spec fn jump_op(insn: u32) -> Option<InsnOp> {
    if insn & 0b11 == 0b11 {
        base_op(insn)
    } else {
        compressed_op(insn as u16)
    }
}

/// Whether a branch is taken.
pub open spec fn branch_taken(op: InsnOp, a: usize, b: usize) -> bool {
    match op {
        InsnOp::Beq => a == b,
        InsnOp::Bne => a != b,
        InsnOp::Blt => signed_lt_spec(a, b),
        InsnOp::Bge => !signed_lt_spec(a, b),
        InsnOp::Bltu => a < b,
        InsnOp::Bgeu => a >= b,
        InsnOp::CBeqz => a == 0,
        InsnOp::CBnez => a != 0,
        _ => false,
    }
}

/// The program counter after the jump or branch `insn`, which stands at
/// `pc`, was carried out on `tf`. Addresses wrap around.
pub open spec fn emulated_pc(tf: TrapFrame, insn: u32, pc: usize) -> usize {
    let c = (insn & 0xffff) as u32;
    match jump_op(insn) {
        Some(InsnOp::Auipc) => pc.wrapping_add(4),
        Some(InsnOp::Jal) => pc.wrapping_add_signed(
            sign_extend_isize(jtype_imm_spec(insn), 0x10_0000),
        ),
        Some(InsnOp::Jalr) => reg_value(tf, rs1_spec(insn)).wrapping_add_signed(
            sign_extend_isize(itype_imm_spec(insn), 0x800),
        ),
        Some(InsnOp::CJ) => pc.wrapping_add_signed(sign_extend_isize(cj_imm_spec(c), 0x800)),
        Some(InsnOp::CJr) => reg_value(tf, c_rs1_spec(c)),
        Some(InsnOp::CJalr) => reg_value(tf, c_rs1_spec(c)),
        Some(InsnOp::CBeqz) | Some(InsnOp::CBnez) => if branch_taken(
            jump_op(insn)->0,
            reg_value(tf, cb_rs1_spec(c)),
            0,
        ) {
            pc.wrapping_add_signed(sign_extend_isize(cb_imm_spec(c), 0x100))
        } else {
            pc.wrapping_add(2)
        },
        Some(op) => if branch_taken(
            op,
            reg_value(tf, rs1_spec(insn)),
            reg_value(tf, rs2_spec(insn)),
        ) {
            pc.wrapping_add_signed(sign_extend_isize(btype_imm_spec(insn), 0x1000))
        } else {
            pc.wrapping_add(4)
        },
        None => tf.sepc,
    }
}

/// The registers after the jump or branch `insn`, which stands at `pc`, was
/// carried out on `tf`: a jump that links writes the address behind it, and
/// `auipc` the address that it computes.
pub open spec fn emulated_regs(tf: TrapFrame, insn: u32, pc: usize) -> Seq<usize> {
    match jump_op(insn) {
        Some(InsnOp::Auipc) => with_reg(
            tf,
            rd_spec(insn),
            pc.wrapping_add_signed(sign_extend_isize(utype_imm_spec(insn), 0x8000_0000)),
        ),
        Some(InsnOp::Jal) | Some(InsnOp::Jalr) => with_reg(tf, rd_spec(insn), pc.wrapping_add(4)),
        Some(InsnOp::CJalr) => with_reg(tf, 1, pc.wrapping_add(2)),
        _ => tf.x@,
    }
}

proof fn lemma_fields(insn: u32)
    ensures
        rd_spec(insn) < 32,
        rs1_spec(insn) < 32,
        rs2_spec(insn) < 32,
        c_rs1_spec(insn) < 32,
        8 <= cb_rs1_spec(insn) < 16,
        jtype_imm_spec(insn) < 0x20_0000,
        btype_imm_spec(insn) < 0x2000,
        itype_imm_spec(insn) < 0x1000,
        cj_imm_spec(insn) < 0x1000,
        cb_imm_spec(insn) < 0x200,
{
    assert((insn >> 7) & 0x1f < 32) by (bit_vector);
    assert((insn >> 15) & 0x1f < 32) by (bit_vector);
    assert((insn >> 20) & 0x1f < 32) by (bit_vector);
    assert((insn >> 7) & 0x7 < 8) by (bit_vector);
    assert(((insn & 0x8000_0000) >> 11) | ((insn & 0x7fe0_0000) >> 20) | ((insn & 0x0010_0000)
        >> 9) | (insn & 0x000f_f000) < 0x20_0000) by (bit_vector);
    assert(((insn & 0x8000_0000) >> 19) | ((insn & 0x7e00_0000) >> 20) | ((insn & 0x0000_0f00)
        >> 7) | ((insn & 0x0000_0080) << 4) < 0x2000) by (bit_vector);
    assert(insn >> 20 < 0x1000) by (bit_vector);
    assert(((insn >> 1) & 0x800) | ((insn << 2) & 0x400) | ((insn >> 1) & 0x300) | ((insn << 1)
        & 0x80) | ((insn >> 1) & 0x40) | ((insn << 3) & 0x20) | ((insn >> 7) & 0x10) | ((insn
        >> 2) & 0xe) < 0x1000) by (bit_vector);
    assert(((insn >> 4) & 0x100) | ((insn << 1) & 0xc0) | ((insn << 3) & 0x20) | ((insn >> 7)
        & 0x18) | ((insn >> 2) & 0x6) < 0x200) by (bit_vector);
}

/// The length of the instruction whose low 16 bits are `insn`.
pub fn get_insn_length(insn: u16) -> (n: usize)
    ensures
        n == insn_length_spec(insn),
{
    instruction_length(insn)
}

/// Which jump or branch `insn` is.
pub fn get_jump_op(insn: u32) -> (r: Option<InsnOp>)
    ensures
        r == jump_op(insn),
{
    if insn & 0b11 == 0b11 {
        let opcode = insn & 0x7f;
        let funct3 = (insn >> 12) & 0x7;
        if opcode == 0x17 {
            Some(InsnOp::Auipc)
        } else if opcode == 0x6f {
            Some(InsnOp::Jal)
        } else if opcode == 0x67 {
            Some(InsnOp::Jalr)
        } else if opcode == 0x63 {
            if funct3 == 0 {
                Some(InsnOp::Beq)
            } else if funct3 == 1 {
                Some(InsnOp::Bne)
            } else if funct3 == 4 {
                Some(InsnOp::Blt)
            } else if funct3 == 5 {
                Some(InsnOp::Bge)
            } else if funct3 == 6 {
                Some(InsnOp::Bltu)
            } else if funct3 == 7 {
                Some(InsnOp::Bgeu)
            } else {
                None
            }
        } else {
            None
        }
    } else {
        let c = #[verifier::truncate] (insn as u16);
        if c & 0xe003 == 0xa001 {
            Some(InsnOp::CJ)
        } else if c & 0xe003 == 0xc001 {
            Some(InsnOp::CBeqz)
        } else if c & 0xe003 == 0xe001 {
            Some(InsnOp::CBnez)
        } else if c & 0xf07f == 0x8002 && c & 0x0f80 != 0 {
            Some(InsnOp::CJr)
        } else if c & 0xf07f == 0x9002 && c & 0x0f80 != 0 {
            Some(InsnOp::CJalr)
        } else {
            None
        }
    }
}

/// How the engine can step over an instruction, given the four bytes at its
/// address as `insn`, lowest first.
///
/// An instruction that is neither two nor four bytes long is not supported.
/// A jump or a branch, compressed or not, and `auipc` are emulated. Of the
/// rest, what the decoder knows is executed from a buffer, and what it does
/// not know is not supported. For an instruction of two bytes only these two
/// are looked at.
pub open spec fn insn_type_spec(insn: u32) -> SingleStepType {
    let len = insn_length_spec(insn as u16);
    if len != 2 && len != 4 {
        SingleStepType::Unsupported
    } else if jump_op(insn) is Some {
        SingleStepType::Emulate
    } else if decodes(if len == 2 { insn & 0xffff } else { insn }) {
        SingleStepType::Execute
    } else {
        SingleStepType::Unsupported
    }
}

/// How the engine steps over an instruction for which the decoder said `op`.
pub open spec fn step_type(insn: u32, op: Option<InsnOp>) -> SingleStepType {
    let len = insn_length_spec(insn as u16);
    if len != 2 && len != 4 {
        SingleStepType::Unsupported
    } else if jump_op(insn) is Some {
        SingleStepType::Emulate
    } else if op is Some {
        SingleStepType::Execute
    } else {
        SingleStepType::Unsupported
    }
}

/// `step_type`, computed.
pub fn classify(insn: u32, op: Option<InsnOp>) -> (r: SingleStepType)
    ensures
        r == step_type(insn, op),
{
    let len = get_insn_length(#[verifier::truncate] (insn as u16));
    if len != 2 && len != 4 {
        SingleStepType::Unsupported
    } else if get_jump_op(insn).is_some() {
        SingleStepType::Emulate
    } else if op.is_some() {
        SingleStepType::Execute
    } else {
        SingleStepType::Unsupported
    }
}

/// How the engine can step over the instruction `insn`.
pub fn get_insn_type(insn: u32) -> (r: SingleStepType)
    ensures
        r == insn_type_spec(insn),
{
    let len = get_insn_length(#[verifier::truncate] (insn as u16));
    let bits = if len == 2 {
        insn & 0xffff
    } else {
        insn
    };
    let op = decode_op(bits);
    proof {
        lemma_jump_bits(insn);
    }
    classify(insn, op)
}

/// A jump or branch of 32 bits is four bytes long, a compressed one two; and
/// no compressed instruction is one of the nine of `base_op` once its upper
/// half is cut off.
proof fn lemma_jump_bits(insn: u32)
    ensures
        insn & 0b11 == 0b11 && base_op(insn) is Some ==> insn_length_spec(insn as u16) == 4,
        insn & 0b11 != 0b11 ==> insn_length_spec(insn as u16) == 2,
        insn & 0b11 != 0b11 ==> base_op(insn & 0xffff) is None,
        insn_length_spec(insn as u16) != 2 <==> insn & 0b11 == 0b11,
{
    let i = insn as u16;
    assert(insn & 0b11 == 0b11 ==> i & 0b11 == 0b11) by (bit_vector)
        requires
            i == insn as u16,
    ;
    assert(insn & 0b11 != 0b11 ==> i & 0b11 != 0b11) by (bit_vector)
        requires
            i == insn as u16,
    ;
    assert((insn & 0x7f == 0x17 || insn & 0x7f == 0x6f || insn & 0x7f == 0x67 || insn & 0x7f
        == 0x63) ==> i & 0b11100 != 0b11100) by (bit_vector)
        requires
            i == insn as u16,
    ;
    let low = insn & 0xffff;
    assert(insn & 0b11 != 0b11 ==> low & 0x7f != 0x17 && low & 0x7f != 0x6f && low & 0x7f != 0x67
        && low & 0x7f != 0x63) by (bit_vector)
        requires
            low == insn & 0xffff,
    ;
}

/// Whether the engine carries out this instruction itself.
pub open spec fn is_emulated(insn: u32) -> bool {
    jump_op(insn) is Some
}

/// The registers `after` are what the jump or branch `insn` at `pc` makes of
/// the registers `before`.
pub open spec fn emulated(before: TrapFrame, insn: u32, pc: usize, after: TrapFrame) -> bool {
    &&& after.sepc == emulated_pc(before, insn, pc)
    &&& after.x@ == emulated_regs(before, insn, pc)
    &&& after.sstatus == before.sstatus
}

/// Carries out the jump or branch `insn`, which stands at `pc`, on the saved
/// registers: sets the program counter to where the instruction leads, and
/// writes the register that it writes.
pub fn emulate_execution(tf: &mut TrapFrame, insn: u32, pc: usize)
    requires
        is_emulated(insn),
    ensures
        emulated(*old(tf), insn, pc, *final(tf)),
{
    proof {
        lemma_fields(insn);
        lemma_fields(insn & 0xffff);
    }
    let c = insn & 0xffff;
    assert((c >> 7) & 0x7 < 8) by (bit_vector);
    let rd = (insn >> 7) & 0x1f;
    let rs1 = (insn >> 15) & 0x1f;
    let rs2 = (insn >> 20) & 0x1f;
    match get_jump_op(insn) {
        Some(InsnOp::Auipc) => {
            let offset = sign_extend(insn & 0xffff_f000, 0x8000_0000);
            set_trapframe_pc(tf, pc.wrapping_add(4));
            set_reg(tf, rd, pc.wrapping_add_signed(offset));
        },
        Some(InsnOp::Jal) => {
            let offset = sign_extend(jtype_imm(insn), 0x10_0000);
            set_trapframe_pc(tf, pc.wrapping_add_signed(offset));
            set_reg(tf, rd, pc.wrapping_add(4));
        },
        Some(InsnOp::Jalr) => {
            let offset = sign_extend(insn >> 20, 0x800);
            let target = get_reg(tf, rs1).wrapping_add_signed(offset);
            set_trapframe_pc(tf, target);
            set_reg(tf, rd, pc.wrapping_add(4));
        },
        Some(InsnOp::CJ) => {
            let imm = ((c >> 1) & 0x800) | ((c << 2) & 0x400) | ((c >> 1) & 0x300) | ((c << 1)
                & 0x80) | ((c >> 1) & 0x40) | ((c << 3) & 0x20) | ((c >> 7) & 0x10) | ((c >> 2)
                & 0xe);
            set_trapframe_pc(tf, pc.wrapping_add_signed(sign_extend(imm, 0x800)));
        },
        Some(InsnOp::CJr) => {
            let target = get_reg(tf, (c >> 7) & 0x1f);
            set_trapframe_pc(tf, target);
        },
        Some(InsnOp::CJalr) => {
            let target = get_reg(tf, (c >> 7) & 0x1f);
            set_trapframe_pc(tf, target);
            set_reg(tf, 1, pc.wrapping_add(2));
        },
        Some(InsnOp::CBeqz) => {
            let imm = ((c >> 4) & 0x100) | ((c << 1) & 0xc0) | ((c << 3) & 0x20) | ((c >> 7)
                & 0x18) | ((c >> 2) & 0x6);
            if get_reg(tf, 8 + ((c >> 7) & 0x7)) == 0 {
                set_trapframe_pc(tf, pc.wrapping_add_signed(sign_extend(imm, 0x100)));
            } else {
                set_trapframe_pc(tf, pc.wrapping_add(2));
            }
        },
        Some(InsnOp::CBnez) => {
            let imm = ((c >> 4) & 0x100) | ((c << 1) & 0xc0) | ((c << 3) & 0x20) | ((c >> 7)
                & 0x18) | ((c >> 2) & 0x6);
            if get_reg(tf, 8 + ((c >> 7) & 0x7)) != 0 {
                set_trapframe_pc(tf, pc.wrapping_add_signed(sign_extend(imm, 0x100)));
            } else {
                set_trapframe_pc(tf, pc.wrapping_add(2));
            }
        },
        Some(op) => {
            let a = get_reg(tf, rs1);
            let b = get_reg(tf, rs2);
            let taken = match op {
                InsnOp::Beq => a == b,
                InsnOp::Bne => a != b,
                InsnOp::Blt => signed_lt(a, b),
                InsnOp::Bge => !signed_lt(a, b),
                InsnOp::Bltu => a < b,
                _ => a >= b,
            };
            if taken {
                let offset = sign_extend(btype_imm(insn), 0x1000);
                set_trapframe_pc(tf, pc.wrapping_add_signed(offset));
            } else {
                set_trapframe_pc(tf, pc.wrapping_add(4));
            }
        },
        None => {},
    }
}

/// The page from which a displaced instruction is run: the instruction
/// stands at its start, a breakpoint behind it.
pub struct InstructionBuffer {
    pub addr: usize,
}

impl InstructionBuffer {
    /// The buffer ends within the address space.
    pub open spec fn wf(&self) -> bool {
        self.addr + PAGE_SIZE <= usize::MAX
    }

    /// A buffer in the page at `page`, which the caller has set aside for it.
    pub fn new(page: usize) -> (buf: Self)
        ensures
            buf.addr == page,
    {
        Self { addr: page }
    }

    pub fn addr(&self) -> (addr: usize)
        ensures
            addr == self.addr,
    {
        self.addr
    }

    /// Records that `len` bytes are to be copied from `src_addr` into the
    /// buffer at `offset`.
    pub fn copy_in(&self, ops: &mut Vec<KernelOp>, offset: usize, src_addr: usize, len: usize)
        requires
            self.wf(),
            offset <= PAGE_SIZE,
        ensures
            final(ops)@ == old(ops)@.push(
                KernelOp::Copy { dst: (self.addr + offset) as usize, src: src_addr, len },
            ),
    {
        byte_copy(ops, self.addr + offset, src_addr, len);
    }

    /// Records that `len` bytes are to be copied from the buffer at `offset`
    /// to `dst_addr`.
    pub fn copy_out(&self, ops: &mut Vec<KernelOp>, offset: usize, dst_addr: usize, len: usize)
        requires
            self.wf(),
            offset <= PAGE_SIZE,
        ensures
            final(ops)@ == old(ops)@.push(
                KernelOp::Copy { dst: dst_addr, src: (self.addr + offset) as usize, len },
            ),
    {
        byte_copy(ops, dst_addr, self.addr + offset, len);
    }

    /// Records that a breakpoint is to be written into the buffer at `offset`.
    pub fn add_breakpoint(&self, ops: &mut Vec<KernelOp>, offset: usize)
        requires
            self.wf(),
            offset <= PAGE_SIZE,
        ensures
            final(ops)@ == old(ops)@.push(
                KernelOp::Breakpoints { addr: (self.addr + offset) as usize, count: 1 },
            ),
    {
        inject_breakpoints(ops, self.addr + offset, None);
    }

    /// Records that the page of the buffer is to be given back.
    pub fn release(self, ops: &mut Vec<KernelOp>)
        ensures
            final(ops)@ == old(ops)@.push(KernelOp::FreePage { addr: self.addr }),
    {
        dealloc_page(ops, self.addr);
    }
}

/// Records that the instruction cache is to be flushed.
pub fn invalidate_icache(ops: &mut Vec<KernelOp>)
    ensures
        final(ops)@ == old(ops)@.push(KernelOp::FlushICache),
{
    ops.push(KernelOp::FlushICache);
}

/// A byte of code; what lies beyond the end reads as zero.
pub open spec fn code_byte(code: Seq<u8>, at: int) -> int {
    if 0 <= at < code.len() {
        code[at] as int
    } else {
        0
    }
}

/// The four bytes of code from `at` on as one number, lowest byte first.
pub open spec fn insn_at(code: Seq<u8>, at: int) -> u32 {
    (code_byte(code, at) + code_byte(code, at + 1) * 0x100 + code_byte(code, at + 2) * 0x1_0000
        + code_byte(code, at + 3) * 0x100_0000) as u32
}

/// The four bytes of code from `at` on.
pub fn read_insn(code: &[u8], at: usize) -> (insn: u32)
    ensures
        insn == insn_at(code@, at as int),
{
    let len = code.len();
    let b0: u32 = if at < len { code[at] as u32 } else { 0 };
    let b1: u32 = if at < len && len - at > 1 { code[at + 1] as u32 } else { 0 };
    let b2: u32 = if at < len && len - at > 2 { code[at + 2] as u32 } else { 0 };
    let b3: u32 = if at < len && len - at > 3 { code[at + 3] as u32 } else { 0 };
    b0 + b1 * 0x100 + b2 * 0x1_0000 + b3 * 0x100_0000
}

/// Whether the engine knows the instruction that starts with these four
/// bytes: it is a jump or a branch, or the decoder knows it. Of a compressed
/// instruction only the low two bytes are looked at.
pub open spec fn is_known(insn: u32) -> bool {
    jump_op(insn) is Some || decodes(if insn & 0b11 == 0b11 { insn } else { insn & 0xffff })
}

/// Whether the engine knows the instruction, given what the decoder said.
pub fn known(insn: u32) -> (r: bool)
    ensures
        r == is_known(insn),
{
    let bits = if insn & 0b11 == 0b11 {
        insn
    } else {
        insn & 0xffff
    };
    let op = decode_op(bits);
    proof {
        lemma_jump_bits(insn);
    }
    get_jump_op(insn).is_some() || op.is_some()
}

/// Walks over the instructions of a piece of code.
pub struct InstructionIterator {
    pub cur: usize,
    pub end: usize,
}

/// Where the walk goes on behind the instruction at `cur`.
pub open spec fn step_over(code: Seq<u8>, base: usize, cur: usize) -> usize {
    let len = insn_length_spec(insn_at(code, cur - base) as u16);
    if cur + len <= usize::MAX {
        (cur + len) as usize
    } else {
        usize::MAX
    }
}

/// The first instruction from `cur` on and before `end` that the engine
/// knows, with its address, and where the walk goes on behind it. `code` is
/// the memory from the address `base` on.
pub open spec fn next_known(code: Seq<u8>, base: usize, cur: usize, end: usize) -> Option<
    (usize, u32, usize),
>
    decreases (if cur < end { end - cur } else { 0 }),
{
    if cur >= end {
        None
    } else if is_known(insn_at(code, cur - base)) {
        Some((cur, insn_at(code, cur - base), step_over(code, base, cur)))
    } else if step_over(code, base, cur) <= cur {
        None
    } else {
        next_known(code, base, step_over(code, base, cur), end)
    }
}

proof fn lemma_length_positive(i: u16)
    ensures
        insn_length_spec(i) >= 2,
{
    assert(((i >> 12) & 0b111) <= 7) by (bit_vector);
}

impl InstructionIterator {
    pub fn new(begin: usize, end: usize) -> (iter: Self)
        ensures
            iter.cur == begin,
            iter.end == end,
    {
        Self { cur: begin, end }
    }

    /// The next instruction that the engine knows, with its address. `code`
    /// is the memory from the address `base` on.
    pub fn next(&mut self, code: &[u8], base: usize) -> (r: Option<(usize, u32)>)
        requires
            base <= old(self).cur,
        ensures
            final(self).end == old(self).end,
            base <= final(self).cur,
            match next_known(code@, base, old(self).cur, old(self).end) {
                Some((addr, insn, next)) => r == Some((addr, insn)) && final(self).cur == next
                    && old(self).cur <= addr < next,
                None => r is None && final(self).cur >= old(self).cur,
            },
    {
        while self.cur < self.end
            invariant
                self.end == old(self).end,
                base <= old(self).cur <= self.cur,
                next_known(code@, base, old(self).cur, old(self).end) == next_known(
                    code@,
                    base,
                    self.cur,
                    self.end,
                ),
            decreases (if self.cur < self.end { self.end - self.cur } else { 0 }),
        {
            let addr = self.cur;
            let insn = read_insn(code, addr - base);
            let len = get_insn_length(#[verifier::truncate] (insn as u16));
            proof {
                lemma_length_positive(insn as u16);
            }
            let next = match addr.checked_add(len) {
                Some(next) => next,
                None => usize::MAX,
            };
            self.cur = next;
            if known(insn) {
                return Some((addr, insn));
            }
        }
        None
    }
}

/// Whether an instruction calls a function: a jump that links through `ra`.
pub open spec fn is_call(insn: u32) -> bool {
    match jump_op(insn) {
        Some(InsnOp::Jal) | Some(InsnOp::Jalr) => rd_spec(insn) == 1,
        Some(InsnOp::CJalr) => true,
        _ => false,
    }
}

// criteria: jal / jalr instrution whose rd is ra, or compressed jalr
pub fn is_function_call(insn: u32) -> (r: bool)
    ensures
        r == is_call(insn),
{
    match get_jump_op(insn) {
        Some(InsnOp::Jal) => (insn >> 7) & 0x1f == 1,
        Some(InsnOp::Jalr) => (insn >> 7) & 0x1f == 1,
        Some(InsnOp::CJalr) => true,
        _ => false,
    }
}

/// The number of function calls among the instructions from `cur` on and
/// before `end` that the engine knows.
pub open spec fn call_count(code: Seq<u8>, base: usize, cur: usize, end: usize) -> nat
    decreases (if cur < end { end - cur } else { 0 }),
{
    match next_known(code, base, cur, end) {
        Some((addr, insn, next)) => if cur < end && cur <= addr < next {
            (if is_call(insn) { 1nat } else { 0nat }) + call_count(code, base, next, end)
        } else {
            0
        },
        None => 0,
    }
}

/// Calls `action` with the address of every function call in the code from
/// `code_range.0` up to `code_range.1`, and counts them. `code` is the
/// memory from the address `base` on.
pub fn foreach_function_call<F: Fn(usize)>(
    code: &[u8],
    base: usize,
    code_range: (usize, usize),
    action: &F,
) -> (count: usize)
    requires
        base <= code_range.0,
        forall|addr: usize| action.requires((addr,)),
    ensures
        count == call_count(code@, base, code_range.0, code_range.1),
{
    let mut count: usize = 0;
    let mut iter = InstructionIterator::new(code_range.0, code_range.1);
    loop
        invariant
            iter.end == code_range.1,
            base <= code_range.0 <= iter.cur,
            forall|addr: usize| action.requires((addr,)),
            count <= iter.cur - code_range.0,
            count + call_count(code@, base, iter.cur, iter.end) == call_count(
                code@,
                base,
                code_range.0,
                code_range.1,
            ),
        decreases (if iter.cur < iter.end { iter.end - iter.cur } else { 0 }),
    {
        let ghost before = iter.cur;
        match iter.next(code, base) {
            Some((addr, insn)) => {
                assert(before < iter.end);
                if is_function_call(insn) {
                    action(addr);
                    count = count + 1;
                }
                if iter.cur >= iter.end {
                    proof {
                        assert(next_known(code@, base, iter.cur, iter.end) is None);
                        assert(call_count(code@, base, iter.cur, iter.end) == 0);
                    }
                    return count;
                }
            },
            None => {
                assert(call_count(code@, base, before, iter.end) == 0);
                return count;
            },
        }
    }
}

} // verus!
