use vstd::prelude::*;
use crate::rv32i::isa::{
    OPCODE_AUIPC, OPCODE_BRANCH, OPCODE_JAL, OPCODE_JALR, OPCODE_LOAD, OPCODE_LUI,
    OPCODE_MISC_MEM, OPCODE_OP, OPCODE_OP_IMM, OPCODE_STORE, OPCODE_SYSTEM, arithmetic_shift,
    funct3, funct7, imm_i, lemma_field_bounds, negative, offset_b, offset_i,
    offset_j, offset_s, opcode, rd, rs1, rs2,
};

verus! {

/// The operation an instruction word stands for on this machine.
#[derive(Debug, Clone, Copy, PartialEq, Eq, Structural)]
pub enum Operation {
    Lui,
    Auipc,
    Jal,
    Beq,
    Bne,
    Blt,
    Bge,
    Bltu,
    Bgeu,
    Jalr,
    Lb,
    Lh,
    Lw,
    Lbu,
    Lhu,
    Lwu,
    Addi,
    Slti,
    Sltiu,
    Xori,
    Ori,
    Andi,
    Slli,
    Srli,
    Srai,
    Sb,
    Sh,
    Sw,
    Add,
    Sub,
    Sll,
    Slt,
    Sltu,
    Xor,
    Srl,
    Sra,
    Or,
    And,
    /// A fence, carried out as a no-op.
    Fence,
    /// A word of the fence opcode with a nonzero `funct3`; it does nothing.
    FenceOther,
    /// A call to the environment, carried out as a no-op.
    Ecall,
    /// A breakpoint, carried out as a no-op.
    Ebreak,
    /// Any other system instruction; it does nothing.
    System,
    /// A branch, load, store or register-register word whose function
    /// fields this machine does not carry out, or a word of an unknown
    /// opcode; it does nothing.
    Unspecified,
}

/// The parts of an instruction that a trace of its execution shows.
#[derive(Debug, Clone, Copy, PartialEq, Eq, Structural)]
pub struct Decoded {
    pub operation: Operation,
    pub rd: u32,
    pub rs1: u32,
    pub rs2: u32,
    /// The immediate as shown: the magnitude of the offset for jumps,
    /// branches, loads, stores and `addi`; the shift amount for the
    /// immediate shifts; the raw twelve-bit immediate for the other
    /// register-immediate operations; the upper twenty bits for `lui` and
    /// `auipc`; 0 otherwise.
    pub operand: u32,
    /// Whether the immediate is negative, for `jal`, `addi` and the signed
    /// loads `lb`, `lh`, `lw` (the others show no sign).
    pub minus: bool,
}

pub open spec fn abs(v: int) -> int {
    if v < 0 {
        -v
    } else {
        v
    }
}

/// The operation of instruction `i`.
pub open spec fn operation_of(i: u32) -> Operation {
    let op = opcode(i);
    let f3 = funct3(i);
    let f7 = funct7(i);
    if op == OPCODE_LUI {
        Operation::Lui
    } else if op == OPCODE_AUIPC {
        Operation::Auipc
    } else if op == OPCODE_JAL {
        Operation::Jal
    } else if op == OPCODE_BRANCH {
        if f3 == 0 {
            Operation::Beq
        } else if f3 == 1 {
            Operation::Bne
        } else if f3 == 4 {
            Operation::Blt
        } else if f3 == 5 {
            Operation::Bge
        } else if f3 == 6 {
            Operation::Bltu
        } else if f3 == 7 {
            Operation::Bgeu
        } else {
            Operation::Unspecified
        }
    } else if op == OPCODE_JALR {
        Operation::Jalr
    } else if op == OPCODE_LOAD {
        if f3 == 0 {
            Operation::Lb
        } else if f3 == 1 {
            Operation::Lh
        } else if f3 == 2 {
            Operation::Lw
        } else if f3 == 4 {
            Operation::Lbu
        } else if f3 == 5 {
            Operation::Lhu
        } else if f3 == 6 {
            Operation::Lwu
        } else {
            Operation::Unspecified
        }
    } else if op == OPCODE_OP_IMM {
        if f3 == 0 {
            Operation::Addi
        } else if f3 == 1 {
            Operation::Slli
        } else if f3 == 2 {
            Operation::Slti
        } else if f3 == 3 {
            Operation::Sltiu
        } else if f3 == 4 {
            Operation::Xori
        } else if f3 == 5 {
            if arithmetic_shift(i) {
                Operation::Srai
            } else {
                Operation::Srli
            }
        } else if f3 == 6 {
            Operation::Ori
        } else {
            Operation::Andi
        }
    } else if op == OPCODE_STORE {
        if f3 == 0 {
            Operation::Sb
        } else if f3 == 1 {
            Operation::Sh
        } else if f3 == 2 {
            Operation::Sw
        } else {
            Operation::Unspecified
        }
    } else if op == OPCODE_OP {
        if f7 == 0 {
            if f3 == 0 {
                Operation::Add
            } else if f3 == 1 {
                Operation::Sll
            } else if f3 == 2 {
                Operation::Slt
            } else if f3 == 3 {
                Operation::Sltu
            } else if f3 == 4 {
                Operation::Xor
            } else if f3 == 5 {
                Operation::Srl
            } else if f3 == 6 {
                Operation::Or
            } else {
                Operation::And
            }
        } else if f7 == 0x20 && f3 == 0 {
            Operation::Sub
        } else if f7 == 0x20 && f3 == 5 {
            Operation::Sra
        } else {
            Operation::Unspecified
        }
    } else if op == OPCODE_MISC_MEM {
        if f3 == 0 {
            Operation::Fence
        } else {
            Operation::FenceOther
        }
    } else if op == OPCODE_SYSTEM {
        if f3 == 0 && rs1(i) == 0 && rd(i) == 0 && f7 == 1 {
            Operation::Ecall
        } else if f3 == 0 && rs1(i) == 0 && rd(i) == 0 && f7 == 0 {
            Operation::Ebreak
        } else {
            Operation::System
        }
    } else {
        Operation::Unspecified
    }
}

/// The immediate a trace shows for instruction `i` (see `Decoded::operand`).
pub open spec fn operand_of(i: u32) -> u32 {
    let op = opcode(i);
    let f3 = funct3(i);
    if op == OPCODE_LUI || op == OPCODE_AUIPC {
        i >> 12
    } else if op == OPCODE_JAL {
        abs(offset_j(i)) as u32
    } else if op == OPCODE_BRANCH {
        abs(offset_b(i)) as u32
    } else if op == OPCODE_JALR || op == OPCODE_LOAD {
        abs(offset_i(i)) as u32
    } else if op == OPCODE_STORE {
        abs(offset_s(i)) as u32
    } else if op == OPCODE_OP_IMM {
        if f3 == 0 {
            abs(offset_i(i)) as u32
        } else if f3 == 1 || f3 == 5 {
            imm_i(i) & 0x1f
        } else {
            imm_i(i)
        }
    } else {
        0
    }
}

/// Whether a trace shows the immediate of `i` with a minus sign.
pub open spec fn minus_of(i: u32) -> bool {
    let op = opcode(i);
    let f3 = funct3(i);
    negative(i) && (op == OPCODE_JAL || (op == OPCODE_LOAD && f3 <= 2) || (op == OPCODE_OP_IMM
        && f3 == 0))
}

pub open spec fn decoded_of(i: u32) -> Decoded {
    Decoded {
        operation: operation_of(i),
        rd: rd(i),
        rs1: rs1(i),
        rs2: rs2(i),
        operand: operand_of(i),
        minus: minus_of(i),
    }
}

/// Splits an instruction word into what a trace of it shows.
pub fn decode(instruction: u32) -> (d: Decoded)
    ensures
        d == decoded_of(instruction),
{
    proof {
        lemma_field_bounds(instruction);
    }
    let i = instruction;
    let op = i & 0x7f;
    let f3 = (i >> 12) & 0x7;
    let f7 = i >> 25;
    let d = (i >> 7) & 0x1f;
    let s1 = (i >> 15) & 0x1f;
    let s2 = (i >> 20) & 0x1f;
    let imm = i >> 20;
    let neg = (i >> 31) & 1 == 1;
    let i_magnitude = if neg {
        4096 - imm
    } else {
        imm
    };
    let operation = if op == OPCODE_LUI {
        Operation::Lui
    } else if op == OPCODE_AUIPC {
        Operation::Auipc
    } else if op == OPCODE_JAL {
        Operation::Jal
    } else if op == OPCODE_BRANCH {
        if f3 == 0 {
            Operation::Beq
        } else if f3 == 1 {
            Operation::Bne
        } else if f3 == 4 {
            Operation::Blt
        } else if f3 == 5 {
            Operation::Bge
        } else if f3 == 6 {
            Operation::Bltu
        } else if f3 == 7 {
            Operation::Bgeu
        } else {
            Operation::Unspecified
        }
    } else if op == OPCODE_JALR {
        Operation::Jalr
    } else if op == OPCODE_LOAD {
        if f3 == 0 {
            Operation::Lb
        } else if f3 == 1 {
            Operation::Lh
        } else if f3 == 2 {
            Operation::Lw
        } else if f3 == 4 {
            Operation::Lbu
        } else if f3 == 5 {
            Operation::Lhu
        } else if f3 == 6 {
            Operation::Lwu
        } else {
            Operation::Unspecified
        }
    } else if op == OPCODE_OP_IMM {
        if f3 == 0 {
            Operation::Addi
        } else if f3 == 1 {
            Operation::Slli
        } else if f3 == 2 {
            Operation::Slti
        } else if f3 == 3 {
            Operation::Sltiu
        } else if f3 == 4 {
            Operation::Xori
        } else if f3 == 5 {
            if (i >> 30) & 1 == 1 {
                Operation::Srai
            } else {
                Operation::Srli
            }
        } else if f3 == 6 {
            Operation::Ori
        } else {
            Operation::Andi
        }
    } else if op == OPCODE_STORE {
        if f3 == 0 {
            Operation::Sb
        } else if f3 == 1 {
            Operation::Sh
        } else if f3 == 2 {
            Operation::Sw
        } else {
            Operation::Unspecified
        }
    } else if op == OPCODE_OP {
        if f7 == 0 {
            if f3 == 0 {
                Operation::Add
            } else if f3 == 1 {
                Operation::Sll
            } else if f3 == 2 {
                Operation::Slt
            } else if f3 == 3 {
                Operation::Sltu
            } else if f3 == 4 {
                Operation::Xor
            } else if f3 == 5 {
                Operation::Srl
            } else if f3 == 6 {
                Operation::Or
            } else {
                Operation::And
            }
        } else if f7 == 0x20 && f3 == 0 {
            Operation::Sub
        } else if f7 == 0x20 && f3 == 5 {
            Operation::Sra
        } else {
            Operation::Unspecified
        }
    } else if op == OPCODE_MISC_MEM {
        if f3 == 0 {
            Operation::Fence
        } else {
            Operation::FenceOther
        }
    } else if op == OPCODE_SYSTEM {
        if f3 == 0 && s1 == 0 && d == 0 && f7 == 1 {
            Operation::Ecall
        } else if f3 == 0 && s1 == 0 && d == 0 && f7 == 0 {
            Operation::Ebreak
        } else {
            Operation::System
        }
    } else {
        Operation::Unspecified
    };
    let operand = if op == OPCODE_LUI || op == OPCODE_AUIPC {
        i >> 12
    } else if op == OPCODE_JAL {
        let raw = (((i >> 21) & 0x3ff) << 1) | (((i >> 20) & 1) << 11) | (((i >> 12) & 0xff) << 12)
            | (((i >> 31) & 1) << 20);
        if neg {
            (0x200000 - raw) % 0x100000
        } else {
            raw
        }
    } else if op == OPCODE_BRANCH {
        let raw = (((i >> 8) & 0xf) << 1) | (((i >> 25) & 0x3f) << 5) | (((i >> 7) & 1) << 11) | (((
        i >> 31) & 1) << 12);
        if neg {
            (8192 - raw) % 4096
        } else {
            raw
        }
    } else if op == OPCODE_JALR || op == OPCODE_LOAD {
        i_magnitude
    } else if op == OPCODE_STORE {
        let raw = ((i >> 25) << 5) | ((i >> 7) & 0xf);
        if neg {
            4096 - raw
        } else {
            raw
        }
    } else if op == OPCODE_OP_IMM {
        if f3 == 0 {
            i_magnitude
        } else if f3 == 1 || f3 == 5 {
            imm & 0x1f
        } else {
            imm
        }
    } else {
        0
    };
    let minus = neg && (op == OPCODE_JAL || (op == OPCODE_LOAD && f3 <= 2) || (op == OPCODE_OP_IMM
        && f3 == 0));
    Decoded { operation, rd: d, rs1: s1, rs2: s2, operand, minus }
}

} // verus!
