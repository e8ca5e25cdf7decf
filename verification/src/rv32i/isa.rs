use vstd::prelude::*;
use crate::rv32i::rom::{load_u8, load_u16, load_u32, store_u8, store_u16, store_u32};

verus! {

pub const OPCODE_LUI: u32 = 0x37;
pub const OPCODE_AUIPC: u32 = 0x17;
pub const OPCODE_JAL: u32 = 0x6f;
pub const OPCODE_JALR: u32 = 0x67;
pub const OPCODE_BRANCH: u32 = 0x63;
pub const OPCODE_LOAD: u32 = 0x03;
pub const OPCODE_STORE: u32 = 0x23;
pub const OPCODE_OP_IMM: u32 = 0x13;
pub const OPCODE_OP: u32 = 0x33;
pub const OPCODE_MISC_MEM: u32 = 0x0f;
pub const OPCODE_SYSTEM: u32 = 0x73;

// ---------------------------------------------------------------------------
// Instruction fields
// ---------------------------------------------------------------------------

pub open spec fn opcode(i: u32) -> u32 {
    i & 0x7f
}

pub open spec fn rd(i: u32) -> u32 {
    (i >> 7) & 0x1f
}

pub open spec fn funct3(i: u32) -> u32 {
    (i >> 12) & 0x7
}

pub open spec fn rs1(i: u32) -> u32 {
    (i >> 15) & 0x1f
}

pub open spec fn rs2(i: u32) -> u32 {
    (i >> 20) & 0x1f
}

pub open spec fn funct7(i: u32) -> u32 {
    i >> 25
}

/// Bit 31 of the instruction, the sign of every immediate.
pub open spec fn negative(i: u32) -> bool {
    (i >> 31) & 1 == 1
}

/// Bit 30 of the instruction, which tells an arithmetic right shift from a
/// logical one.
pub open spec fn arithmetic_shift(i: u32) -> bool {
    (i >> 30) & 1 == 1
}

/// The U-type immediate: the upper twenty bits of the instruction, in place.
pub open spec fn imm_u(i: u32) -> u32 {
    (i >> 12) << 12
}

/// The raw twelve-bit I-type immediate.
pub open spec fn imm_i(i: u32) -> u32 {
    i >> 20
}

/// The raw twelve-bit store immediate: bits 31..25 of the instruction above
/// bits 10..7 (bit 11 of the instruction is not read, so bit 4 stays clear).
pub open spec fn imm_s(i: u32) -> u32 {
    ((i >> 25) << 5) | ((i >> 7) & 0xf)
}

/// The raw thirteen-bit branch offset (bit 0 clear, bit 12 the sign).
pub open spec fn imm_b(i: u32) -> u32 {
    (((i >> 8) & 0xf) << 1) | (((i >> 25) & 0x3f) << 5) | (((i >> 7) & 1) << 11) | (((i >> 31)
        & 1) << 12)
}

/// The raw twenty-one-bit jump offset (bit 0 clear, bit 20 the sign).
pub open spec fn imm_j(i: u32) -> u32 {
    (((i >> 21) & 0x3ff) << 1) | (((i >> 20) & 1) << 11) | (((i >> 12) & 0xff) << 12) | (((i
        >> 31) & 1) << 20)
}

/// The I-type immediate, sign-extended.
pub open spec fn offset_i(i: u32) -> int {
    if negative(i) {
        imm_i(i) - 4096
    } else {
        imm_i(i) as int
    }
}

/// The store immediate, sign-extended.
pub open spec fn offset_s(i: u32) -> int {
    if negative(i) {
        imm_s(i) - 4096
    } else {
        imm_s(i) as int
    }
}

/// The distance a taken branch moves the program counter. A negative
/// offset is taken modulo 4096, so the offset -4096 moves it by 0.
pub open spec fn offset_b(i: u32) -> int {
    if negative(i) {
        -((8192 - imm_b(i)) % 4096)
    } else {
        imm_b(i) as int
    }
}

/// The distance `jal` moves the program counter. A negative offset is taken
/// modulo 2^20, so the offset -2^20 moves it by 0.
pub open spec fn offset_j(i: u32) -> int {
    if negative(i) {
        -((0x200000 - imm_j(i)) % 0x100000)
    } else {
        imm_j(i) as int
    }
}

/// The distance `jalr` moves the program counter: the sign-extended
/// I-type immediate with the lowest bit of its magnitude cleared. The
/// source register is not read.
pub open spec fn offset_jalr(i: u32) -> int {
    let m = if negative(i) {
        4096 - imm_i(i)
    } else {
        imm_i(i) as int
    };
    let even = m - m % 2;
    if negative(i) {
        -even
    } else {
        even
    }
}

/// Whether an integer is a value of `u32`.
pub open spec fn in_u32(v: int) -> bool {
    0 <= v <= u32::MAX
}

/// Whether an integer is a value of `i32`.
pub open spec fn in_i32(v: int) -> bool {
    i32::MIN <= v <= i32::MAX
}

// ---------------------------------------------------------------------------
// Machine state
// ---------------------------------------------------------------------------

/// The mathematical state of the machine: 32 registers, the program
/// counter, the flag that the current instruction has set the program
/// counter, and the 1024 bytes of memory.
pub struct CpuState {
    pub x: Seq<u32>,
    pub pc: u32,
    pub pc_loaded: bool,
    pub mem: Seq<u8>,
}

impl CpuState {
    pub open spec fn wf(self) -> bool {
        self.x.len() == 32 && self.mem.len() == 1024
    }

    pub open spec fn reg(self, r: u32) -> u32 {
        self.x[r as int]
    }

    pub open spec fn set_reg(self, r: u32, v: u32) -> CpuState {
        CpuState { x: self.x.update(r as int, v), ..self }
    }

    /// The state after a jump to `target`: the program counter moves and is
    /// marked as loaded.
    pub open spec fn jump(self, target: int) -> CpuState {
        CpuState { pc: target as u32, pc_loaded: true, ..self }
    }
}

// ---------------------------------------------------------------------------
// Semantics, one instruction class at a time
// ---------------------------------------------------------------------------

pub open spec fn branch_taken(f3: u32, a: u32, b: u32) -> bool {
    if f3 == 0 {
        a == b
    } else if f3 == 1 {
        a != b
    } else if f3 == 4 {
        (a as i32) < (b as i32)
    } else if f3 == 5 {
        (a as i32) >= (b as i32)
    } else if f3 == 6 {
        a < b
    } else if f3 == 7 {
        a >= b
    } else {
        false
    }
}

/// Bytes read by a load with this `funct3` (0 for one that does nothing).
pub open spec fn load_width(f3: u32) -> int {
    if f3 == 0 || f3 == 4 {
        1
    } else if f3 == 1 || f3 == 5 {
        2
    } else if f3 == 2 || f3 == 6 {
        4
    } else {
        0
    }
}

/// Bytes written by a store with this `funct3` (0 for one that does nothing).
pub open spec fn store_width(f3: u32) -> int {
    if f3 == 0 {
        1
    } else if f3 == 1 {
        2
    } else if f3 == 2 {
        4
    } else {
        0
    }
}

pub open spec fn sign_extend_16(h: u32) -> u32 {
    if h < 0x8000 {
        h
    } else {
        (h + 0xffff0000) as u32
    }
}

/// The value a load with this `funct3` puts into its register. Both byte
/// loads zero-extend; `funct3 == 1` sign-extends its half word.
pub open spec fn load_value(m: Seq<u8>, f3: u32, a: int) -> u32 {
    if f3 == 0 || f3 == 4 {
        load_u8(m, a)
    } else if f3 == 1 {
        sign_extend_16(load_u16(m, a))
    } else if f3 == 5 {
        load_u16(m, a)
    } else {
        load_u32(m, a)
    }
}

pub open spec fn store_value(m: Seq<u8>, f3: u32, a: int, v: u32) -> Seq<u8> {
    if f3 == 0 {
        store_u8(m, a, v)
    } else if f3 == 1 {
        store_u16(m, a, v)
    } else {
        store_u32(m, a, v)
    }
}

pub open spec fn load_address(s: CpuState, i: u32) -> int {
    s.reg(rs1(i)) + offset_i(i)
}

pub open spec fn store_address(s: CpuState, i: u32) -> int {
    s.reg(rs1(i)) + offset_s(i)
}

/// `slti` as this machine computes it: against a negative immediate of
/// magnitude `m` the result is 1 only for a negative register above `m`
/// as unsigned; against a non-negative immediate it is 0 only for a
/// non-negative register above the immediate.
pub open spec fn slti_value(a: u32, i: u32) -> u32 {
    let rs_negative = a >= 0x8000_0000;
    if negative(i) {
        if rs_negative && a > 4096 - imm_i(i) {
            1
        } else {
            0
        }
    } else {
        if !rs_negative && a > imm_i(i) {
            0
        } else {
            1
        }
    }
}

/// The result of a register-immediate instruction (its `funct3` selects it).
pub open spec fn op_imm_value(a: u32, i: u32) -> u32 {
    let f3 = funct3(i);
    let imm = imm_i(i);
    if f3 == 0 {
        (a + offset_i(i)) as u32
    } else if f3 == 2 {
        slti_value(a, i)
    } else if f3 == 3 {
        if a < imm {
            1
        } else {
            0
        }
    } else if f3 == 4 {
        a ^ imm
    } else if f3 == 6 {
        a | imm
    } else if f3 == 7 {
        a & imm
    } else if f3 == 1 {
        (a << imm) & 0x1f
    } else if arithmetic_shift(i) {
        (((a as i32) >> imm) & 0x1f) as u32
    } else {
        (a >> imm) & 0x1f
    }
}

/// Whether the register-register instruction with these function fields is
/// one this machine carries out.
pub open spec fn op_defined(f3: u32, f7: u32) -> bool {
    (f7 == 0) || (f7 == 0x20 && (f3 == 0 || f3 == 5))
}

/// The result of a register-register instruction.
pub open spec fn op_value(a: u32, b: u32, f3: u32, f7: u32) -> u32 {
    if f7 == 0x20 {
        if f3 == 0 {
            ((a as i32) - (b as i32)) as u32
        } else {
            ((a as i32) >> (b & 0x1f)) as u32
        }
    } else if f3 == 0 {
        (a + b) as u32
    } else if f3 == 1 {
        a << (b & 0x1f)
    } else if f3 == 2 {
        if (a as i32) < (b as i32) {
            1
        } else {
            0
        }
    } else if f3 == 3 {
        if a < b {
            1
        } else {
            0
        }
    } else if f3 == 4 {
        a ^ b
    } else if f3 == 5 {
        a >> (b & 0x1f)
    } else if f3 == 6 {
        a | b
    } else {
        a & b
    }
}

/// The state after executing instruction `i` in state `s`.
pub open spec fn execute(s: CpuState, i: u32) -> CpuState {
    let op = opcode(i);
    if op == OPCODE_LUI {
        s.set_reg(rd(i), imm_u(i))
    } else if op == OPCODE_AUIPC {
        s.set_reg(rd(i), (s.pc + imm_u(i)) as u32)
    } else if op == OPCODE_JAL {
        let linked = if rd(i) != 0 {
            s.set_reg(rd(i), (s.pc + 4) as u32)
        } else {
            s
        };
        linked.jump(s.pc + offset_j(i))
    } else if op == OPCODE_BRANCH {
        if branch_taken(funct3(i), s.reg(rs1(i)), s.reg(rs2(i))) {
            s.jump(s.pc + offset_b(i))
        } else {
            s
        }
    } else if op == OPCODE_JALR {
        CpuState { pc: (s.pc + offset_jalr(i)) as u32, ..s.set_reg(rd(i), (s.pc + 4) as u32) }
    } else if op == OPCODE_LOAD {
        if load_width(funct3(i)) == 0 {
            s
        } else {
            s.set_reg(rd(i), load_value(s.mem, funct3(i), load_address(s, i)))
        }
    } else if op == OPCODE_OP_IMM {
        s.set_reg(rd(i), op_imm_value(s.reg(rs1(i)), i))
    } else if op == OPCODE_STORE {
        if store_width(funct3(i)) == 0 {
            s
        } else {
            CpuState {
                mem: store_value(s.mem, funct3(i), store_address(s, i), s.reg(rs2(i))),
                ..s
            }
        }
    } else if op == OPCODE_OP {
        if op_defined(funct3(i), funct7(i)) {
            s.set_reg(rd(i), op_value(s.reg(rs1(i)), s.reg(rs2(i)), funct3(i), funct7(i)))
        } else {
            s
        }
    } else {
        s
    }
}

/// Whether executing `i` in `s` stays within the machine's arithmetic and
/// memory: every sum and difference the instruction computes fits its
/// type, every shift amount is below 32, and every byte it touches lies in
/// memory. Where this does not hold the instruction cannot be carried out
/// (an arithmetic right shift by an immediate never can: its immediate
/// holds bit 10).
pub open spec fn can_execute(s: CpuState, i: u32) -> bool {
    let op = opcode(i);
    if op == OPCODE_AUIPC {
        in_u32(s.pc + imm_u(i))
    } else if op == OPCODE_JAL {
        &&& (rd(i) != 0 ==> in_u32(s.pc + 4))
        &&& in_u32(s.pc + offset_j(i))
    } else if op == OPCODE_BRANCH {
        branch_taken(funct3(i), s.reg(rs1(i)), s.reg(rs2(i))) ==> in_u32(s.pc + offset_b(i))
    } else if op == OPCODE_JALR {
        in_u32(s.pc + 4) && in_u32(s.pc + offset_jalr(i))
    } else if op == OPCODE_LOAD {
        load_width(funct3(i)) != 0 ==> (0 <= load_address(s, i) && load_address(s, i)
            + load_width(funct3(i)) <= 1024)
    } else if op == OPCODE_OP_IMM {
        let f3 = funct3(i);
        &&& (f3 == 0 ==> in_u32(s.reg(rs1(i)) + offset_i(i)))
        &&& (f3 == 1 || f3 == 5 ==> imm_i(i) < 32)
    } else if op == OPCODE_STORE {
        store_width(funct3(i)) != 0 ==> (0 <= store_address(s, i) && store_address(s, i)
            + store_width(funct3(i)) <= 1024)
    } else if op == OPCODE_OP {
        let a = s.reg(rs1(i));
        let b = s.reg(rs2(i));
        &&& (funct3(i) == 0 && funct7(i) == 0 ==> in_u32(a + b))
        &&& (funct3(i) == 0 && funct7(i) == 0x20 ==> in_i32((a as i32) - (b as i32)))
    } else {
        true
    }
}

/// Whether the instruction at the program counter lies wholly in memory.
pub open spec fn can_fetch(s: CpuState) -> bool {
    s.pc + 3 < 1024
}

/// The instruction at the program counter.
pub open spec fn fetched(s: CpuState) -> u32 {
    load_u32(s.mem, s.pc as int)
}

/// Whether a whole step (fetch, execute, advance) stays within the machine.
pub open spec fn can_step(s: CpuState) -> bool {
    let t = execute(s, fetched(s));
    &&& can_fetch(s)
    &&& can_execute(s, fetched(s))
    &&& (!t.pc_loaded ==> in_u32(t.pc + 4))
}

/// The state after one step: execute the instruction at the program
/// counter, then advance the program counter by 4 unless the instruction
/// loaded it, and clear the flag.
pub open spec fn step(s: CpuState) -> CpuState {
    let t = execute(s, fetched(s));
    CpuState {
        pc: if t.pc_loaded {
            t.pc
        } else {
            (t.pc + 4) as u32
        },
        pc_loaded: false,
        ..t
    }
}

/// Facts on the ranges of the instruction fields.
pub proof fn lemma_field_bounds(i: u32)
    ensures
        opcode(i) < 128,
        rd(i) < 32,
        rs1(i) < 32,
        rs2(i) < 32,
        funct3(i) < 8,
        funct7(i) < 128,
        imm_i(i) < 4096,
        negative(i) ==> imm_i(i) >= 2048,
        !negative(i) ==> imm_i(i) < 2048,
        imm_s(i) < 4096,
        negative(i) ==> imm_s(i) >= 2048,
        !negative(i) ==> imm_s(i) < 2048,
        imm_b(i) < 8192,
        negative(i) ==> imm_b(i) >= 4096,
        !negative(i) ==> imm_b(i) < 4096,
        imm_j(i) < 0x200000,
        negative(i) ==> imm_j(i) >= 0x100000,
        !negative(i) ==> imm_j(i) < 0x100000,
        negative(i) ==> funct7(i) >= 64,
{
    assert(i & 0x7f < 128) by (bit_vector);
    assert((i >> 7) & 0x1f < 32) by (bit_vector);
    assert((i >> 15) & 0x1f < 32) by (bit_vector);
    assert((i >> 20) & 0x1f < 32) by (bit_vector);
    assert((i >> 12) & 0x7 < 8) by (bit_vector);
    assert(i >> 25 < 128) by (bit_vector);
    assert((i >> 31) & 1 == 1 ==> i >> 25 >= 64) by (bit_vector);
    assert(i >> 20 < 4096) by (bit_vector);
    assert((i >> 31) & 1 == 1 ==> i >> 20 >= 2048) by (bit_vector);
    assert((i >> 31) & 1 != 1 ==> i >> 20 < 2048) by (bit_vector);
    assert(((i >> 25) << 5) | ((i >> 7) & 0xf) < 4096) by (bit_vector);
    assert((i >> 31) & 1 == 1 ==> ((i >> 25) << 5) | ((i >> 7) & 0xf) >= 2048) by (bit_vector);
    assert((i >> 31) & 1 != 1 ==> ((i >> 25) << 5) | ((i >> 7) & 0xf) < 2048) by (bit_vector);
    assert((((i >> 8) & 0xf) << 1) | (((i >> 25) & 0x3f) << 5) | (((i >> 7) & 1) << 11) | (((i
        >> 31) & 1) << 12) < 8192) by (bit_vector);
    assert((i >> 31) & 1 == 1 ==> (((i >> 8) & 0xf) << 1) | (((i >> 25) & 0x3f) << 5) | (((i
        >> 7) & 1) << 11) | (((i >> 31) & 1) << 12) >= 4096) by (bit_vector);
    assert((i >> 31) & 1 != 1 ==> (((i >> 8) & 0xf) << 1) | (((i >> 25) & 0x3f) << 5) | (((i
        >> 7) & 1) << 11) | (((i >> 31) & 1) << 12) < 4096) by (bit_vector);
    assert((((i >> 21) & 0x3ff) << 1) | (((i >> 20) & 1) << 11) | (((i >> 12) & 0xff) << 12) | (((
    i >> 31) & 1) << 20) < 0x200000) by (bit_vector);
    assert((i >> 31) & 1 == 1 ==> (((i >> 21) & 0x3ff) << 1) | (((i >> 20) & 1) << 11) | (((i
        >> 12) & 0xff) << 12) | (((i >> 31) & 1) << 20) >= 0x100000) by (bit_vector);
    assert((i >> 31) & 1 != 1 ==> (((i >> 21) & 0x3ff) << 1) | (((i >> 20) & 1) << 11) | (((i
        >> 12) & 0xff) << 12) | (((i >> 31) & 1) << 20) < 0x100000) by (bit_vector);
}

} // verus!
