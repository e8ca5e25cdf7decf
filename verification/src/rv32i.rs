pub mod rom;
pub mod isa;
pub mod laws;
pub mod decode;
pub mod example_run;
pub mod instruction_laws;

use vstd::prelude::*;
use crate::rv32i::rom::{Rom, load_u32, DATA_BASE};
use crate::rv32i::isa::{
    CpuState, OPCODE_AUIPC, OPCODE_BRANCH, OPCODE_JAL, OPCODE_JALR, OPCODE_LOAD, OPCODE_LUI,
    OPCODE_OP, OPCODE_OP_IMM, OPCODE_STORE, can_execute, can_fetch, can_step, execute, fetched,
    lemma_field_bounds, negative, opcode, step,
};

verus! {

/// An RV32I core: 32 registers, a program counter, the flag that the
/// current instruction has loaded the program counter, and its memory.
#[derive(Debug, Copy, Clone)]
pub struct CpuOfRV32I {
    pub x: [u32; 32],
    pub program_counter: u32,
    pub pc_loaded: bool,
    pub rom: Rom,
}

impl View for CpuOfRV32I {
    type V = CpuState;

    open spec fn view(&self) -> CpuState {
        CpuState {
            x: self.x@,
            pc: self.program_counter,
            pc_loaded: self.pc_loaded,
            mem: self.rom@,
        }
    }
}

/// The register index held in the five bits of `instruction` from bit `at`.
fn reg_index(instruction: u32, at: u32) -> (r: usize)
    requires
        at == 7 || at == 15 || at == 20,
    ensures
        r == (instruction >> at) & 0x1f,
        r < 32,
{
    let r = (instruction >> at) & 0x1f;
    assert(r < 32) by (bit_vector)
        requires
            r == (instruction >> at) & 0x1f,
    ;
    r as usize
}

/// Whether bit 31 of `instruction` is set.
fn sign_bit(instruction: u32) -> (b: bool)
    ensures
        b == negative(instruction),
{
    (instruction >> 31) & 1 == 1
}

impl CpuOfRV32I {
    /// A core with every register, the program counter and the whole
    /// memory zero.
    pub fn new() -> (cpu: CpuOfRV32I)
        ensures
            cpu@ == (CpuState {
                x: Seq::new(32, |i: int| 0u32),
                pc: 0,
                pc_loaded: false,
                mem: Seq::new(1024, |i: int| 0u8),
            }),
    {
        let cpu = CpuOfRV32I { x: [0; 32], program_counter: 0, pc_loaded: false, rom: Rom::new() };
        assert(cpu.x@ =~= Seq::new(32, |i: int| 0u32));
        cpu
    }

    /// Fetches, executes and retires the instruction at the program counter:
    /// unless the instruction loaded the program counter, it advances by 4;
    /// the flag is cleared either way.
    pub fn next(&mut self)
        requires
            can_step(old(self)@),
        ensures
            final(self)@ == step(old(self)@),
            !final(self).pc_loaded,
    {
        let instruction = self.fetch();
        self.decode_and_execute(instruction);
        if self.pc_loaded == false {
            self.program_counter = self.program_counter + 4;
        }
        self.pc_loaded = false;
    }

    /// The little-endian word at the program counter; the core is unchanged.
    pub fn fetch(&mut self) -> (instruction: u32)
        requires
            can_fetch(old(self)@),
        ensures
            instruction == fetched(old(self)@),
            *final(self) == *old(self),
    {
        self.rom.read_u32(self.program_counter as usize)
    }

    /// Executes one instruction: the new state is `execute` of the old one.
    pub fn decode_and_execute(&mut self, instruction: u32)
        requires
            can_execute(old(self)@, instruction),
        ensures
            final(self)@ == execute(old(self)@, instruction),
    {
        proof {
            lemma_field_bounds(instruction);
        }
        let op = instruction & 0x7f;
        if op == OPCODE_LUI {
            let d = reg_index(instruction, 7);
            self.x[d] = (instruction >> 12) << 12;
        } else if op == OPCODE_AUIPC {
            let d = reg_index(instruction, 7);
            self.x[d] = self.program_counter + ((instruction >> 12) << 12);
        } else if op == OPCODE_JAL {
            self.execute_jal(instruction);
        } else if op == OPCODE_BRANCH {
            self.execute_branch(instruction);
        } else if op == OPCODE_JALR {
            self.execute_jalr(instruction);
        } else if op == OPCODE_LOAD {
            self.execute_load(instruction);
        } else if op == OPCODE_OP_IMM {
            self.execute_op_imm(instruction);
        } else if op == OPCODE_STORE {
            self.execute_store(instruction);
        } else if op == OPCODE_OP {
            self.execute_op(instruction);
        }
    }

    fn execute_jal(&mut self, instruction: u32)
        requires
            opcode(instruction) == OPCODE_JAL,
            can_execute(old(self)@, instruction),
        ensures
            final(self)@ == execute(old(self)@, instruction),
    {
        proof {
            lemma_field_bounds(instruction);
        }
        let i = instruction;
        let d = reg_index(i, 7);
        let raw = (((i >> 21) & 0x3ff) << 1) | (((i >> 20) & 1) << 11) | (((i >> 12) & 0xff) << 12)
            | (((i >> 31) & 1) << 20);
        if d != 0 {
            self.x[d] = self.program_counter + 4;
        }
        if sign_bit(i) {
            let magnitude = (0x200000 - raw) % 0x100000;
            self.program_counter = self.program_counter - magnitude;
        } else {
            self.program_counter = self.program_counter + raw;
        }
        self.pc_loaded = true;
    }

    fn execute_branch(&mut self, instruction: u32)
        requires
            opcode(instruction) == OPCODE_BRANCH,
            can_execute(old(self)@, instruction),
        ensures
            final(self)@ == execute(old(self)@, instruction),
    {
        proof {
            lemma_field_bounds(instruction);
        }
        let i = instruction;
        let s1 = reg_index(i, 15);
        let s2 = reg_index(i, 20);
        let f3 = (i >> 12) & 0x7;
        let raw = (((i >> 8) & 0xf) << 1) | (((i >> 25) & 0x3f) << 5) | (((i >> 7) & 1) << 11) | (((
        i >> 31) & 1) << 12);
        let a = self.x[s1];
        let b = self.x[s2];
        let taken = if f3 == 0 {
            a == b
        } else if f3 == 1 {
            a != b
        } else if f3 == 4 {
            (a as i32) < (b as i32)
        } else if f3 == 5 {
            (a as i32) >= (b as i32)
        } else if f3 == 6 {
            a < b
        } else if f3 == 7 {
            a >= b
        } else {
            false
        };
        if taken {
            if sign_bit(i) {
                let magnitude = (8192 - raw) % 4096;
                self.program_counter = self.program_counter - magnitude;
            } else {
                self.program_counter = self.program_counter + raw;
            }
            self.pc_loaded = true;
        }
    }

    fn execute_jalr(&mut self, instruction: u32)
        requires
            opcode(instruction) == OPCODE_JALR,
            can_execute(old(self)@, instruction),
        ensures
            final(self)@ == execute(old(self)@, instruction),
    {
        proof {
            lemma_field_bounds(instruction);
        }
        let i = instruction;
        let d = reg_index(i, 7);
        let imm = i >> 20;
        let link = self.program_counter + 4;
        if sign_bit(i) {
            let magnitude = 4096 - imm;
            self.program_counter = self.program_counter - (magnitude - magnitude % 2);
        } else {
            self.program_counter = self.program_counter + (imm - imm % 2);
        }
        self.x[d] = link;
    }

    fn execute_load(&mut self, instruction: u32)
        requires
            opcode(instruction) == OPCODE_LOAD,
            can_execute(old(self)@, instruction),
        ensures
            final(self)@ == execute(old(self)@, instruction),
    {
        proof {
            lemma_field_bounds(instruction);
        }
        let i = instruction;
        let d = reg_index(i, 7);
        let s1 = reg_index(i, 15);
        let f3 = (i >> 12) & 0x7;
        let imm = i >> 20;
        if f3 == 3 || f3 == 7 {
            return ;
        }
        let address = if sign_bit(i) {
            self.x[s1] - (4096 - imm)
        } else {
            self.x[s1] + imm
        };
        let a = address as usize;
        let value = if f3 == 0 || f3 == 4 {
            self.rom.read_u8(a)
        } else if f3 == 1 {
            let h = self.rom.read_u16(a);
            if h < 0x8000 {
                h
            } else {
                h + 0xffff0000
            }
        } else if f3 == 5 {
            self.rom.read_u16(a)
        } else {
            self.rom.read_u32(a)
        };
        self.x[d] = value;
    }

    fn execute_store(&mut self, instruction: u32)
        requires
            opcode(instruction) == OPCODE_STORE,
            can_execute(old(self)@, instruction),
        ensures
            final(self)@ == execute(old(self)@, instruction),
    {
        proof {
            lemma_field_bounds(instruction);
        }
        let i = instruction;
        let s1 = reg_index(i, 15);
        let s2 = reg_index(i, 20);
        let f3 = (i >> 12) & 0x7;
        let imm = ((i >> 25) << 5) | ((i >> 7) & 0xf);
        if f3 > 2 {
            return ;
        }
        let address = if sign_bit(i) {
            self.x[s1] - (4096 - imm)
        } else {
            self.x[s1] + imm
        };
        let a = address as usize;
        let v = self.x[s2];
        if f3 == 0 {
            self.rom.write_u8(a, v);
        } else if f3 == 1 {
            self.rom.write_u16(a, v);
        } else {
            self.rom.write_u32(a, v);
        }
    }

    fn execute_op_imm(&mut self, instruction: u32)
        requires
            opcode(instruction) == OPCODE_OP_IMM,
            can_execute(old(self)@, instruction),
        ensures
            final(self)@ == execute(old(self)@, instruction),
    {
        proof {
            lemma_field_bounds(instruction);
        }
        let i = instruction;
        let d = reg_index(i, 7);
        let s1 = reg_index(i, 15);
        let f3 = (i >> 12) & 0x7;
        let imm = i >> 20;
        let a = self.x[s1];
        let value = if f3 == 0 {
            if sign_bit(i) {
                a - (4096 - imm)
            } else {
                a + imm
            }
        } else if f3 == 2 {
            let rs_negative = a >= 0x8000_0000;
            if sign_bit(i) {
                if rs_negative && a > 4096 - imm {
                    1
                } else {
                    0
                }
            } else {
                if !rs_negative && a > imm {
                    0
                } else {
                    1
                }
            }
        } else if f3 == 3 {
            if a < imm {
                1
            } else {
                0
            }
        } else if f3 == 4 {
            a ^ imm
        } else if f3 == 6 {
            a | imm
        } else if f3 == 7 {
            a & imm
        } else if f3 == 1 {
            (a << imm) & 0x1f
        } else if (i >> 30) & 1 == 1 {
            (((a as i32) >> imm) & 0x1f) as u32
        } else {
            (a >> imm) & 0x1f
        };
        self.x[d] = value;
    }

    fn execute_op(&mut self, instruction: u32)
        requires
            opcode(instruction) == OPCODE_OP,
            can_execute(old(self)@, instruction),
        ensures
            final(self)@ == execute(old(self)@, instruction),
    {
        proof {
            lemma_field_bounds(instruction);
        }
        let i = instruction;
        let d = reg_index(i, 7);
        let s1 = reg_index(i, 15);
        let s2 = reg_index(i, 20);
        let f3 = (i >> 12) & 0x7;
        let f7 = i >> 25;
        if !(f7 == 0 || (f7 == 0x20 && (f3 == 0 || f3 == 5))) {
            return ;
        }
        let a = self.x[s1];
        let b = self.x[s2];
        let shamt = b & 0x1f;
        assert(shamt < 32) by (bit_vector)
            requires
                shamt == b & 0x1f,
        ;
        let value = if f7 == 0x20 {
            if f3 == 0 {
                ((a as i32) - (b as i32)) as u32
            } else {
                ((a as i32) >> shamt) as u32
            }
        } else if f3 == 0 {
            a + b
        } else if f3 == 1 {
            a << shamt
        } else if f3 == 2 {
            if (a as i32) < (b as i32) {
                1
            } else {
                0
            }
        } else if f3 == 3 {
            if a < b {
                1
            } else {
                0
            }
        } else if f3 == 4 {
            a ^ b
        } else if f3 == 5 {
            a >> shamt
        } else if f3 == 6 {
            a | b
        } else {
            a & b
        };
        self.x[d] = value;
    }

    /// Whether executing `instruction` now stays within the machine's
    /// arithmetic and memory, so that `decode_and_execute` may run.
    pub fn executes_cleanly(&self, instruction: u32) -> (ok: bool)
        ensures
            ok == can_execute(self@, instruction),
    {
        proof {
            lemma_field_bounds(instruction);
        }
        let i = instruction;
        let op = i & 0x7f;
        let pc = self.program_counter as u64;
        let max = u32::MAX as u64;
        let imm = i >> 20;
        if op == OPCODE_AUIPC {
            pc + (((i >> 12) << 12) as u64) <= max
        } else if op == OPCODE_JAL {
            let d = reg_index(i, 7);
            let raw = (((i >> 21) & 0x3ff) << 1) | (((i >> 20) & 1) << 11) | (((i >> 12) & 0xff)
                << 12) | (((i >> 31) & 1) << 20);
            let target_fits = if sign_bit(i) {
                ((0x200000 - raw) % 0x100000) as u64 <= pc
            } else {
                pc + raw as u64 <= max
            };
            (d == 0 || pc + 4 <= max) && target_fits
        } else if op == OPCODE_BRANCH {
            let raw = (((i >> 8) & 0xf) << 1) | (((i >> 25) & 0x3f) << 5) | (((i >> 7) & 1) << 11)
                | (((i >> 31) & 1) << 12);
            let f3 = (i >> 12) & 0x7;
            let a = self.x[reg_index(i, 15)];
            let b = self.x[reg_index(i, 20)];
            let taken = if f3 == 0 {
                a == b
            } else if f3 == 1 {
                a != b
            } else if f3 == 4 {
                (a as i32) < (b as i32)
            } else if f3 == 5 {
                (a as i32) >= (b as i32)
            } else if f3 == 6 {
                a < b
            } else if f3 == 7 {
                a >= b
            } else {
                false
            };
            let target_fits = if sign_bit(i) {
                ((8192 - raw) % 4096) as u64 <= pc
            } else {
                pc + raw as u64 <= max
            };
            !taken || target_fits
        } else if op == OPCODE_JALR {
            let target_fits = if sign_bit(i) {
                let magnitude = 4096 - imm;
                (magnitude - magnitude % 2) as u64 <= pc
            } else {
                pc + (imm - imm % 2) as u64 <= max
            };
            pc + 4 <= max && target_fits
        } else if op == OPCODE_LOAD || op == OPCODE_STORE {
            let f3 = (i >> 12) & 0x7;
            let width: u64 = if op == OPCODE_LOAD {
                if f3 == 0 || f3 == 4 {
                    1
                } else if f3 == 1 || f3 == 5 {
                    2
                } else if f3 == 2 || f3 == 6 {
                    4
                } else {
                    0
                }
            } else {
                if f3 == 0 {
                    1
                } else if f3 == 1 {
                    2
                } else if f3 == 2 {
                    4
                } else {
                    0
                }
            };
            let raw = if op == OPCODE_LOAD {
                imm
            } else {
                ((i >> 25) << 5) | ((i >> 7) & 0xf)
            };
            let base = self.x[reg_index(i, 15)] as u64;
            if width == 0 {
                true
            } else if sign_bit(i) {
                let magnitude = (4096 - raw) as u64;
                magnitude <= base && base - magnitude + width <= 1024
            } else {
                base + raw as u64 + width <= 1024
            }
        } else if op == OPCODE_OP_IMM {
            let f3 = (i >> 12) & 0x7;
            let a = self.x[reg_index(i, 15)] as u64;
            if f3 == 0 {
                if sign_bit(i) {
                    (4096 - imm) as u64 <= a
                } else {
                    a + imm as u64 <= max
                }
            } else if f3 == 1 || f3 == 5 {
                imm < 32
            } else {
                true
            }
        } else if op == OPCODE_OP {
            let f3 = (i >> 12) & 0x7;
            let f7 = i >> 25;
            let a = self.x[reg_index(i, 15)];
            let b = self.x[reg_index(i, 20)];
            if f3 == 0 && f7 == 0 {
                a as u64 + b as u64 <= max
            } else if f3 == 0 && f7 == 0x20 {
                let difference = (a as i32) as i64 - (b as i32) as i64;
                i32::MIN as i64 <= difference && difference <= i32::MAX as i64
            } else {
                true
            }
        } else {
            true
        }
    }

    /// Whether `next` can run now: the instruction at the program counter
    /// lies in memory, executing it stays within the machine, and advancing
    /// the program counter afterwards does not overflow.
    pub fn steps_cleanly(&self) -> (ok: bool)
        ensures
            ok == can_step(self@),
    {
        if self.program_counter > 1020 {
            return false;
        }
        let instruction = self.rom.read_u32(self.program_counter as usize);
        if !self.executes_cleanly(instruction) {
            return false;
        }
        let mut after = *self;
        after.decode_and_execute(instruction);
        after.pc_loaded || after.program_counter <= u32::MAX - 4
    }

    /// The four little-endian words at `DATA_BASE`, where the example
    /// program keeps its array.
    pub fn get_array(&mut self) -> (words: [u32; 4])
        ensures
            *final(self) == *old(self),
            forall|k: int|
                0 <= k < 4 ==> #[trigger] words@[k] == load_u32(
                    old(self)@.mem,
                    DATA_BASE + 4 * k,
                ),
    {
        let mut ret: [u32; 4] = [0; 4];
        let mut i: usize = 0;
        while i < 4
            invariant
                0 <= i <= 4,
                forall|k: int|
                    0 <= k < i ==> #[trigger] ret@[k] == load_u32(self.rom@, DATA_BASE + 4 * k),
            decreases 4 - i,
        {
            ret[i] = self.rom.read_u32(DATA_BASE + 4 * i);
            i = i + 1;
        }
        ret
    }
}

} // verus!
