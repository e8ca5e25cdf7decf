use vstd::prelude::*;
use crate::rv32i::decode::{Operation, abs, decoded_of, minus_of, operand_of};
use crate::rv32i::isa::{
    CpuState, can_execute, can_fetch, can_step, execute, fetched, lemma_field_bounds, offset_b,
    offset_i, offset_j, offset_jalr, offset_s, step, arithmetic_shift, funct3, funct7, imm_b, imm_i, imm_j, imm_s, imm_u, negative, opcode, rd,
    rs1, rs2,
};

verus! {

// ---------------------------------------------------------------------------
// Instruction words read arithmetically, and words read bit by bit
// ---------------------------------------------------------------------------

pub open spec fn word_opcode(i: u32) -> int {
    (i % 128) as int
}

pub open spec fn word_rd(i: u32) -> int {
    ((i / 128) % 32) as int
}

pub open spec fn word_funct3(i: u32) -> int {
    ((i / 4096) % 8) as int
}

pub open spec fn word_rs1(i: u32) -> int {
    ((i / 32768) % 32) as int
}

pub open spec fn word_rs2(i: u32) -> int {
    ((i / 1048576) % 32) as int
}

pub open spec fn word_funct7(i: u32) -> int {
    (i / 33554432) as int
}

/// Whether the word's top bit, the sign of its immediates, is set.
pub open spec fn word_sign(i: u32) -> bool {
    i >= 0x8000_0000
}

/// The twelve-bit immediate of bits 31..20, as an unsigned number.
pub open spec fn word_imm12(i: u32) -> int {
    (i / 1048576) as int
}

/// The value of a word read as a two's complement signed number.
pub open spec fn signed(v: u32) -> int {
    if v < 0x8000_0000 {
        v as int
    } else {
        v - 0x1_0000_0000
    }
}

/// Bit `k` of `v`.
pub open spec fn bit(v: u32, k: u32) -> bool {
    (v >> k) & 1 == 1
}

/// The twelve-bit immediate of bits 31..20, sign-extended.
pub open spec fn sext12(i: u32) -> int {
    word_imm12(i) - if word_sign(i) {
        4096int
    } else {
        0int
    }
}

/// The store offset: bits 31..25 above bits 10..7, sign-extended from bit 31.
pub open spec fn store_offset(i: u32) -> int {
    (i / 33554432) * 32 + (i / 128) % 16 - if word_sign(i) {
        4096int
    } else {
        0int
    }
}

/// The thirteen-bit branch immediate assembled from its four pieces.
pub open spec fn branch_raw(i: u32) -> int {
    ((i / 256) % 16) * 2 + ((i / 33554432) % 64) * 32 + ((i / 128) % 2) * 2048 + if word_sign(i) {
        4096int
    } else {
        0int
    }
}

/// How far a taken branch moves the program counter: the sign-extended
/// branch immediate, except that -4096 moves it by 0.
pub open spec fn branch_distance(i: u32) -> int {
    if branch_raw(i) == 4096 {
        0
    } else if word_sign(i) {
        branch_raw(i) - 8192
    } else {
        branch_raw(i)
    }
}

/// The twenty-one-bit jump immediate assembled from its four pieces.
pub open spec fn jal_raw(i: u32) -> int {
    ((i / 2097152) % 1024) * 2 + ((i / 1048576) % 2) * 2048 + ((i / 4096) % 256) * 4096
        + if word_sign(i) {
        1048576int
    } else {
        0int
    }
}

/// How far `jal` moves the program counter: the sign-extended jump
/// immediate, except that -2^20 moves it by 0.
pub open spec fn jal_distance(i: u32) -> int {
    if jal_raw(i) == 1048576 {
        0
    } else if word_sign(i) {
        jal_raw(i) - 2097152
    } else {
        jal_raw(i)
    }
}

/// How far `jalr` moves the program counter: the sign-extended immediate
/// rounded toward zero to an even number.
pub open spec fn jalr_distance(i: u32) -> int {
    let m = if word_sign(i) {
        -sext12(i)
    } else {
        sext12(i)
    };
    let even = m - m % 2;
    if word_sign(i) {
        -even
    } else {
        even
    }
}

/// The decoded fields agree with the arithmetic reading of the word.
pub proof fn lemma_fields_arithmetic(i: u32)
    by (bit_vector)
    ensures
        opcode(i) == i % 128,
        rd(i) == (i / 128) % 32,
        funct3(i) == (i / 4096) % 8,
        rs1(i) == (i / 32768) % 32,
        rs2(i) == (i / 1048576) % 32,
        funct7(i) == i / 33554432,
        imm_i(i) == i / 1048576,
        negative(i) == (i >= 0x8000_0000),
        arithmetic_shift(i) == ((i / 1073741824) % 2 == 1),
        imm_u(i) == (i / 4096) * 4096,
        i >> 12 == i / 4096,
        imm_s(i) == (i / 33554432) * 32 + (i / 128) % 16,
        imm_b(i) == ((i / 256) % 16) * 2 + ((i / 33554432) % 64) * 32 + ((i / 128) % 2) * 2048 + (
        i / 2147483648) * 4096,
        imm_j(i) == ((i / 2097152) % 1024) * 2 + ((i / 1048576) % 2) * 2048 + ((i / 4096) % 256)
            * 4096 + (i / 2147483648) * 1048576,
{
}

/// Bitwise operations, masks and shifts, bit by bit, and the signed
/// reading of a word.
pub proof fn lemma_bits()
    by (bit_vector)
    ensures
        forall|a: u32, b: u32, k: u32|
            k < 32 ==> (#[trigger] bit(a ^ b, k) == (bit(a, k) != bit(b, k))),
        forall|a: u32, b: u32, k: u32|
            k < 32 ==> (#[trigger] bit(a | b, k) == (bit(a, k) || bit(b, k))),
        forall|a: u32, b: u32, k: u32|
            k < 32 ==> (#[trigger] bit(a & b, k) == (bit(a, k) && bit(b, k))),
        forall|a: u32| #[trigger] (a & 0x1f) == a % 32,
        forall|a: u32, n: u32, k: u32|
            n < 32 && k < 32 ==> (#[trigger] bit(a << n, k) == (n <= k && bit(a, (k - n) as u32))),
        forall|a: u32, n: u32, k: u32|
            n < 32 && k < 32 ==> (#[trigger] bit(a >> n, k) == (k + n < 32 && bit(
                a,
                (k + n) as u32,
            ))),
        forall|a: u32, n: u32, k: u32|
            n < 32 && k < 32 ==> (#[trigger] bit(((a as i32) >> n) as u32, k) == if k + n < 32 {
                bit(a, (k + n) as u32)
            } else {
                bit(a, 31)
            }),
        forall|a: u32, k: u32| 5 <= k < 32 ==> !#[trigger] bit(a & 0x1f, k),
        forall|a: u32, k: u32| k < 5 ==> #[trigger] bit(a & 0x1f, k) == bit(a, k),
        forall|a: u32| (#[trigger] (a as i32)) == if a < 0x8000_0000 {
            a as int
        } else {
            a - 0x1_0000_0000
        },
{
}

// ---------------------------------------------------------------------------
// What each class of instruction does
// ---------------------------------------------------------------------------

/// Whether `t` differs from `s` at most in register `d`, the program
/// counter and the flag.
pub open spec fn only_register_changes(s: CpuState, t: CpuState, d: int) -> bool {
    &&& t.x.len() == 32
    &&& t.mem == s.mem
    &&& forall|r: int| 0 <= r < 32 && r != d ==> #[trigger] t.x[r] == s.x[r]
}

/// `lui` puts the upper twenty bits of the word into `rd`; `auipc` adds
/// them to the program counter. Nothing else changes.
pub proof fn lemma_upper_immediate_semantics(s: CpuState, i: u32)
    requires
        s.wf(),
        word_opcode(i) == 0x37 || word_opcode(i) == 0x17,
        can_execute(s, i),
    ensures
        ({
            let t = execute(s, i);
            let d = word_rd(i);
            &&& only_register_changes(s, t, d)
            &&& t.pc == s.pc
            &&& t.pc_loaded == s.pc_loaded
            &&& t.x[d] == (i / 4096) * 4096 + if word_opcode(i) == 0x17 {
                s.pc as int
            } else {
                0
            }
        }),
{
    lemma_field_bounds(i);
    lemma_fields_arithmetic(i);
}

/// `jal` moves the program counter by its offset and marks it loaded; a
/// nonzero `rd` receives the address after the jump instruction.
pub proof fn lemma_jal_semantics(s: CpuState, i: u32)
    requires
        s.wf(),
        word_opcode(i) == 0x6f,
        can_execute(s, i),
    ensures
        ({
            let t = execute(s, i);
            let d = word_rd(i);
            &&& only_register_changes(s, t, d)
            &&& t.pc == s.pc + jal_distance(i)
            &&& t.pc_loaded
            &&& d != 0 ==> t.x[d] == s.pc + 4
            &&& d == 0 ==> t.x == s.x
        }),
{
    lemma_field_bounds(i);
    lemma_fields_arithmetic(i);
    let raw = imm_j(i) as int;
    if word_sign(i) {
        assert(raw == jal_raw(i));
        if raw == 1048576 {
            assert((0x200000 - raw) % 0x100000 == 0);
        } else {
            assert((0x200000 - raw) % 0x100000 == 0x200000 - raw);
        }
    }
}

/// `jalr` moves the program counter by its immediate, rounded toward zero
/// to an even number, without reading `rs1` and without marking the
/// program counter loaded; `rd` receives the address after it.
pub proof fn lemma_jalr_semantics(s: CpuState, i: u32)
    requires
        s.wf(),
        word_opcode(i) == 0x67,
        can_execute(s, i),
    ensures
        ({
            let t = execute(s, i);
            let d = word_rd(i);
            &&& only_register_changes(s, t, d)
            &&& t.pc == s.pc + jalr_distance(i)
            &&& t.pc_loaded == s.pc_loaded
            &&& t.x[d] == s.pc + 4
        }),
{
    lemma_field_bounds(i);
    lemma_fields_arithmetic(i);
}

/// Whether the branch with this `funct3` is taken on operands `a` and `b`.
pub open spec fn branch_holds(f3: int, a: u32, b: u32) -> bool {
    ||| f3 == 0 && a == b
    ||| f3 == 1 && a != b
    ||| f3 == 4 && signed(a) < signed(b)
    ||| f3 == 5 && signed(a) >= signed(b)
    ||| f3 == 6 && a < b
    ||| f3 == 7 && a >= b
}

/// A branch compares `rs1` with `rs2` (signed for `blt` and `bge`,
/// unsigned for `bltu` and `bgeu`); when the comparison holds it moves the
/// program counter by its offset and marks it loaded, and otherwise it
/// changes nothing. It never changes a register or memory.
pub proof fn lemma_branch_semantics(s: CpuState, i: u32)
    requires
        s.wf(),
        word_opcode(i) == 0x63,
        can_execute(s, i),
    ensures
        ({
            let t = execute(s, i);
            let a = s.x[word_rs1(i)];
            let b = s.x[word_rs2(i)];
            &&& t.x == s.x
            &&& t.mem == s.mem
            &&& branch_holds(word_funct3(i), a, b) ==> t.pc == s.pc + branch_distance(i)
                && t.pc_loaded
            &&& !branch_holds(word_funct3(i), a, b) ==> t == s
        }),
{
    lemma_field_bounds(i);
    lemma_fields_arithmetic(i);
    lemma_bits();
    let raw = imm_b(i) as int;
    if word_sign(i) {
        assert(raw == branch_raw(i));
        if raw == 4096 {
            assert((8192 - raw) % 4096 == 0);
        } else {
            assert((8192 - raw) % 4096 == 8192 - raw);
        }
    }
}

/// A load reads the bytes at `rs1` plus its sign-extended immediate into
/// `rd`: `funct3` 0 and 4 one byte, zero-extended; 1 a little-endian half
/// word whose upper half copies its bit 15; 5 a half word, zero-extended;
/// 2 and 6 a little-endian word; 3 and 7 change nothing.
pub proof fn lemma_load_semantics(s: CpuState, i: u32)
    requires
        s.wf(),
        word_opcode(i) == 0x03,
        can_execute(s, i),
    ensures
        ({
            let t = execute(s, i);
            let d = word_rd(i);
            let f3 = word_funct3(i);
            let at = s.x[word_rs1(i)] + sext12(i);
            let b0 = s.mem[at];
            let b1 = s.mem[at + 1];
            let half = b0 + 256 * b1;
            let v = t.x[d];
            &&& only_register_changes(s, t, d)
            &&& t.pc == s.pc
            &&& t.pc_loaded == s.pc_loaded
            &&& (f3 == 0 || f3 == 4) ==> v == b0
            &&& f3 == 1 ==> v % 65536 == half && (v / 65536 == 0 || v / 65536 == 0xffff) && (v
                >= 0x8000_0000 <==> b1 >= 128)
            &&& f3 == 5 ==> v == half
            &&& (f3 == 2 || f3 == 6) ==> v == half + 65536 * s.mem[at + 2] + 16777216 * s.mem[at
                + 3]
            &&& (f3 == 3 || f3 == 7) ==> t == s
        }),
{
    lemma_field_bounds(i);
    lemma_fields_arithmetic(i);
}

/// A store writes `rs2` little-endian at `rs1` plus its offset: one byte
/// for `funct3` 0, two for 1, four for 2, none otherwise. No other byte,
/// no register and not the program counter changes.
pub proof fn lemma_store_semantics(s: CpuState, i: u32)
    requires
        s.wf(),
        word_opcode(i) == 0x23,
        can_execute(s, i),
    ensures
        ({
            let t = execute(s, i);
            let f3 = word_funct3(i);
            let at = s.x[word_rs1(i)] + store_offset(i);
            let v = s.x[word_rs2(i)];
            let w = if f3 == 0 {
                1int
            } else if f3 == 1 {
                2int
            } else if f3 == 2 {
                4int
            } else {
                0int
            };
            &&& t.x == s.x
            &&& t.pc == s.pc
            &&& t.pc_loaded == s.pc_loaded
            &&& t.mem.len() == 1024
            &&& forall|j: int|
                0 <= j < 1024 && !(at <= j < at + w) ==> #[trigger] t.mem[j] == s.mem[j]
            &&& w >= 1 ==> t.mem[at] == v % 256
            &&& w >= 2 ==> t.mem[at + 1] == (v / 256) % 256
            &&& w == 4 ==> t.mem[at + 2] == (v / 65536) % 256 && t.mem[at + 3] == v / 16777216
        }),
{
    lemma_field_bounds(i);
    lemma_fields_arithmetic(i);
}

/// A register-immediate instruction writes `rd` from `rs1` and the word's
/// immediate: `addi` adds the sign-extended immediate; `sltiu` compares
/// with the raw immediate; `xori`, `ori` and `andi` combine each bit with
/// the raw immediate's; `slli` and `srli` shift by the raw immediate and
/// keep the five low bits; `slti` gives 1 exactly for a register that is
/// negative and above the immediate's magnitude when the immediate is
/// negative, and 0 exactly for a register that is non-negative and above
/// the immediate when it is not.
pub proof fn lemma_op_imm_semantics(s: CpuState, i: u32)
    requires
        s.wf(),
        word_opcode(i) == 0x13,
        can_execute(s, i),
    ensures
        ({
            let t = execute(s, i);
            let d = word_rd(i);
            let f3 = word_funct3(i);
            let a = s.x[word_rs1(i)];
            let imm = word_imm12(i);
            let v = t.x[d];
            &&& only_register_changes(s, t, d)
            &&& t.pc == s.pc
            &&& t.pc_loaded == s.pc_loaded
            &&& f3 == 0 ==> v == a + sext12(i)
            &&& (f3 == 2 && word_sign(i)) ==> v == if a >= 0x8000_0000 && a > 4096 - imm {
                1int
            } else {
                0int
            }
            &&& (f3 == 2 && !word_sign(i)) ==> v == if a < 0x8000_0000 && a > imm {
                0int
            } else {
                1int
            }
            &&& f3 == 3 ==> v == if a < imm {
                1int
            } else {
                0int
            }
            &&& f3 == 4 ==> forall|k: u32|
                k < 32 ==> #[trigger] bit(v, k) == (bit(a, k) != bit(imm as u32, k))
            &&& f3 == 6 ==> forall|k: u32|
                k < 32 ==> #[trigger] bit(v, k) == (bit(a, k) || bit(imm as u32, k))
            &&& f3 == 7 ==> forall|k: u32|
                k < 32 ==> #[trigger] bit(v, k) == (bit(a, k) && bit(imm as u32, k))
            &&& (f3 == 1 || f3 == 5) ==> v < 32 && imm < 32
            &&& f3 == 1 ==> forall|k: u32|
                k < 5 ==> #[trigger] bit(v, k) == (imm <= k && bit(a, (k - imm) as u32))
            &&& f3 == 5 ==> forall|k: u32|
                k < 5 ==> #[trigger] bit(v, k) == (k + imm < 32 && bit(a, (k + imm) as u32))
        }),
{
    lemma_field_bounds(i);
    lemma_fields_arithmetic(i);
    lemma_bits();
}

/// An arithmetic right shift by an immediate can never be carried out: its
/// immediate holds bit 10, so the shift amount is at least 1024.
pub proof fn lemma_srai_never_executes(s: CpuState, i: u32)
    requires
        word_opcode(i) == 0x13,
        word_funct3(i) == 5,
        (i / 1073741824) % 2 == 1,
    ensures
        !can_execute(s, i),
{
    lemma_field_bounds(i);
    lemma_fields_arithmetic(i);
}

/// A register-register instruction writes `rd` from `rs1` and `rs2`: the
/// sum, the signed difference, the signed and unsigned comparisons, the
/// bitwise exclusive or, or and and, and the shifts by the five low bits of
/// `rs2` (left, logical right, arithmetic right copying bit 31). Other
/// `funct7` values change nothing.
pub proof fn lemma_op_semantics(s: CpuState, i: u32)
    requires
        s.wf(),
        word_opcode(i) == 0x33,
        can_execute(s, i),
    ensures
        ({
            let t = execute(s, i);
            let d = word_rd(i);
            let f3 = word_funct3(i);
            let f7 = word_funct7(i);
            let a = s.x[word_rs1(i)];
            let b = s.x[word_rs2(i)];
            let n = b % 32;
            let v = t.x[d];
            &&& only_register_changes(s, t, d)
            &&& t.pc == s.pc
            &&& t.pc_loaded == s.pc_loaded
            &&& (f3 == 0 && f7 == 0) ==> v == a + b
            &&& (f3 == 0 && f7 == 0x20) ==> signed(v) == signed(a) - signed(b)
            &&& (f3 == 1 && f7 == 0) ==> forall|k: u32|
                k < 32 ==> #[trigger] bit(v, k) == (n <= k && bit(a, (k - n) as u32))
            &&& (f3 == 2 && f7 == 0) ==> v == if signed(a) < signed(b) {
                1int
            } else {
                0int
            }
            &&& (f3 == 3 && f7 == 0) ==> v == if a < b {
                1int
            } else {
                0int
            }
            &&& (f3 == 4 && f7 == 0) ==> forall|k: u32|
                k < 32 ==> #[trigger] bit(v, k) == (bit(a, k) != bit(b, k))
            &&& (f3 == 5 && f7 == 0) ==> forall|k: u32|
                k < 32 ==> #[trigger] bit(v, k) == (k + n < 32 && bit(a, (k + n) as u32))
            &&& (f3 == 5 && f7 == 0x20) ==> forall|k: u32|
                k < 32 ==> #[trigger] bit(v, k) == if k + n < 32 {
                    bit(a, (k + n) as u32)
                } else {
                    bit(a, 31)
                }
            &&& (f3 == 6 && f7 == 0) ==> forall|k: u32|
                k < 32 ==> #[trigger] bit(v, k) == (bit(a, k) || bit(b, k))
            &&& (f3 == 7 && f7 == 0) ==> forall|k: u32|
                k < 32 ==> #[trigger] bit(v, k) == (bit(a, k) && bit(b, k))
            &&& !(f7 == 0 || (f7 == 0x20 && (f3 == 0 || f3 == 5))) ==> t == s
        }),
{
    lemma_field_bounds(i);
    lemma_fields_arithmetic(i);
    let t = execute(s, i);
    let d = word_rd(i);
    let f3 = word_funct3(i);
    let f7 = word_funct7(i);
    let a = s.x[word_rs1(i)];
    let b = s.x[word_rs2(i)];
    let n = b % 32;
    let v = t.x[d];
    assert((b & 0x1f) == n) by {
        lemma_bits();
    }
    if f7 == 0 && f3 == 1 {
        assert forall|k: u32| k < 32 implies #[trigger] bit(v, k) == (n <= k && bit(
            a,
            (k - n) as u32,
        )) by {
            lemma_bits();
        }
    } else if f7 == 0 && f3 == 4 {
        assert forall|k: u32| k < 32 implies #[trigger] bit(v, k) == (bit(a, k) != bit(b, k)) by {
            lemma_bits();
        }
    } else if f7 == 0 && f3 == 5 {
        assert forall|k: u32| k < 32 implies #[trigger] bit(v, k) == (k + n < 32 && bit(
            a,
            (k + n) as u32,
        )) by {
            lemma_bits();
        }
    } else if f7 == 0x20 && f3 == 5 {
        assert forall|k: u32| k < 32 implies #[trigger] bit(v, k) == if k + n < 32 {
            bit(a, (k + n) as u32)
        } else {
            bit(a, 31)
        } by {
            lemma_bits();
        }
    } else if f7 == 0 && f3 == 6 {
        assert forall|k: u32| k < 32 implies #[trigger] bit(v, k) == (bit(a, k) || bit(b, k)) by {
            lemma_bits();
        }
    } else if f7 == 0 && f3 == 7 {
        assert forall|k: u32| k < 32 implies #[trigger] bit(v, k) == (bit(a, k) && bit(b, k)) by {
            lemma_bits();
        }
    } else if f7 == 0x20 && f3 == 0 {
        assert(v == ((a as i32) - (b as i32)) as u32);
        assert(signed(((a as i32) - (b as i32)) as u32) == (a as i32) - (b as i32)) by (bit_vector)
            requires
                i32::MIN <= (a as i32) - (b as i32) <= i32::MAX,
        ;
        assert((a as i32) == signed(a) && (b as i32) == signed(b)) by {
            lemma_bits();
        }
    } else if f7 == 0 && f3 == 2 {
        assert((a as i32) == signed(a) && (b as i32) == signed(b)) by {
            lemma_bits();
        }
    }
}

// ---------------------------------------------------------------------------
// When an instruction can be carried out, and what a trace shows of it
// ---------------------------------------------------------------------------

/// The offsets of the model, read arithmetically.
pub proof fn lemma_distances(i: u32)
    ensures
        offset_i(i) == sext12(i),
        offset_s(i) == store_offset(i),
        offset_b(i) == branch_distance(i),
        offset_j(i) == jal_distance(i),
        offset_jalr(i) == jalr_distance(i),
{
    lemma_field_bounds(i);
    lemma_fields_arithmetic(i);
    let rb = imm_b(i) as int;
    let rj = imm_j(i) as int;
    if word_sign(i) {
        assert(rb == branch_raw(i));
        assert(rj == jal_raw(i));
        if rb == 4096 {
            assert((8192 - rb) % 4096 == 0);
        } else {
            assert((8192 - rb) % 4096 == 8192 - rb);
        }
        if rj == 1048576 {
            assert((0x200000 - rj) % 0x100000 == 0);
        } else {
            assert((0x200000 - rj) % 0x100000 == 0x200000 - rj);
        }
    }
}

/// Bytes read by a load, by `funct3`.
pub open spec fn bytes_loaded(f3: int) -> int {
    if f3 == 0 || f3 == 4 {
        1
    } else if f3 == 1 || f3 == 5 {
        2
    } else if f3 == 2 || f3 == 6 {
        4
    } else {
        0
    }
}

/// Bytes written by a store, by `funct3`.
pub open spec fn bytes_stored(f3: int) -> int {
    if f3 == 0 {
        1
    } else if f3 == 1 {
        2
    } else if f3 == 2 {
        4
    } else {
        0
    }
}

/// Exactly when an instruction can be carried out: every sum it forms
/// fits in 32 bits (the signed difference of `sub` in 32 signed bits),
/// every immediate shift amount is below 32, every byte it reads or writes
/// lies in the 1024 bytes of memory, and every new program counter is a
/// 32-bit value.
pub proof fn lemma_can_execute_exactly(s: CpuState, i: u32)
    requires
        s.wf(),
    ensures
        can_execute(s, i) <==> ({
            let op = word_opcode(i);
            let f3 = word_funct3(i);
            let f7 = word_funct7(i);
            let a = s.x[word_rs1(i)];
            let b = s.x[word_rs2(i)];
            let pc = s.pc as int;
            let max = 0xffff_ffffint;
            &&& op == 0x17 ==> pc + (i / 4096) * 4096 <= max
            &&& op == 0x6f ==> (word_rd(i) != 0 ==> pc + 4 <= max) && 0 <= pc + jal_distance(i)
                <= max
            &&& op == 0x63 ==> (branch_holds(f3, a, b) ==> 0 <= pc + branch_distance(i) <= max)
            &&& op == 0x67 ==> pc + 4 <= max && 0 <= pc + jalr_distance(i) <= max
            &&& op == 0x03 ==> (bytes_loaded(f3) != 0 ==> 0 <= a + sext12(i) && a + sext12(i)
                + bytes_loaded(f3) <= 1024)
            &&& op == 0x13 ==> (f3 == 0 ==> 0 <= a + sext12(i) <= max) && ((f3 == 1 || f3 == 5)
                ==> word_imm12(i) < 32)
            &&& op == 0x23 ==> (bytes_stored(f3) != 0 ==> 0 <= a + store_offset(i) && a
                + store_offset(i) + bytes_stored(f3) <= 1024)
            &&& op == 0x33 ==> (f3 == 0 && f7 == 0 ==> a + b <= max) && (f3 == 0 && f7 == 0x20
                ==> -0x8000_0000 <= signed(a) - signed(b) < 0x8000_0000)
        }),
{
    lemma_field_bounds(i);
    lemma_fields_arithmetic(i);
    lemma_distances(i);
    let a = s.x[word_rs1(i)];
    let b = s.x[word_rs2(i)];
    assert((a as i32) == signed(a) && (b as i32) == signed(b)) by {
        lemma_bits();
    }
}

/// Exactly when a step can be carried out: the word at the program counter
/// lies in memory, its instruction can be carried out, and the address
/// after it fits in 32 bits unless the instruction loaded the program
/// counter.
pub proof fn lemma_can_step_exactly(s: CpuState)
    requires
        s.wf(),
    ensures
        can_step(s) <==> ({
            let i = (s.mem[s.pc as int] + 256 * s.mem[s.pc + 1] + 65536 * s.mem[s.pc + 2]
                + 16777216 * s.mem[s.pc + 3]) as u32;
            let t = execute(s, i);
            &&& s.pc + 4 <= 1024
            &&& can_execute(s, i)
            &&& (t.pc_loaded || t.pc + 4 <= 0xffff_ffff)
        }),
{
}

/// A step executes the fetched word, then advances the program counter by
/// 4 unless the word loaded it, and clears the flag.
pub proof fn lemma_step_exactly(s: CpuState)
    requires
        s.wf(),
        can_step(s),
    ensures
        ({
            let i = (s.mem[s.pc as int] + 256 * s.mem[s.pc + 1] + 65536 * s.mem[s.pc + 2]
                + 16777216 * s.mem[s.pc + 3]) as u32;
            let t = execute(s, i);
            &&& step(s).x == t.x
            &&& step(s).mem == t.mem
            &&& !step(s).pc_loaded
            &&& step(s).pc == if t.pc_loaded {
                t.pc as int
            } else {
                t.pc + 4
            }
        }),
{
}

/// The operation a trace shows of an instruction, chosen by its opcode,
/// `funct3` and `funct7` fields, and its register fields.
#[verifier::rlimit(40)]
pub proof fn lemma_decode_operation(i: u32)
    ensures
        ({
            let d = decoded_of(i);
            let op = word_opcode(i);
            let f3 = word_funct3(i);
            let f7 = word_funct7(i);
            let o = d.operation;
            &&& d.rd == word_rd(i)
            &&& d.rs1 == word_rs1(i)
            &&& d.rs2 == word_rs2(i)
            &&& (o == Operation::Lui <==> op == 0x37)
            &&& (o == Operation::Auipc <==> op == 0x17)
            &&& (o == Operation::Jal <==> op == 0x6f)
            &&& (o == Operation::Jalr <==> op == 0x67)
            &&& (o == Operation::Beq <==> op == 0x63 && f3 == 0)
            &&& (o == Operation::Bne <==> op == 0x63 && f3 == 1)
            &&& (o == Operation::Blt <==> op == 0x63 && f3 == 4)
            &&& (o == Operation::Bge <==> op == 0x63 && f3 == 5)
            &&& (o == Operation::Bltu <==> op == 0x63 && f3 == 6)
            &&& (o == Operation::Bgeu <==> op == 0x63 && f3 == 7)
            &&& (o == Operation::Lb <==> op == 0x03 && f3 == 0)
            &&& (o == Operation::Lh <==> op == 0x03 && f3 == 1)
            &&& (o == Operation::Lw <==> op == 0x03 && f3 == 2)
            &&& (o == Operation::Lbu <==> op == 0x03 && f3 == 4)
            &&& (o == Operation::Lhu <==> op == 0x03 && f3 == 5)
            &&& (o == Operation::Lwu <==> op == 0x03 && f3 == 6)
            &&& (o == Operation::Addi <==> op == 0x13 && f3 == 0)
            &&& (o == Operation::Slli <==> op == 0x13 && f3 == 1)
            &&& (o == Operation::Slti <==> op == 0x13 && f3 == 2)
            &&& (o == Operation::Sltiu <==> op == 0x13 && f3 == 3)
            &&& (o == Operation::Xori <==> op == 0x13 && f3 == 4)
            &&& (o == Operation::Srli <==> op == 0x13 && f3 == 5 && (i / 1073741824) % 2 == 0)
            &&& (o == Operation::Srai <==> op == 0x13 && f3 == 5 && (i / 1073741824) % 2 == 1)
            &&& (o == Operation::Ori <==> op == 0x13 && f3 == 6)
            &&& (o == Operation::Andi <==> op == 0x13 && f3 == 7)
            &&& (o == Operation::Sb <==> op == 0x23 && f3 == 0)
            &&& (o == Operation::Sh <==> op == 0x23 && f3 == 1)
            &&& (o == Operation::Sw <==> op == 0x23 && f3 == 2)
            &&& (o == Operation::Add <==> op == 0x33 && f3 == 0 && f7 == 0)
            &&& (o == Operation::Sub <==> op == 0x33 && f3 == 0 && f7 == 0x20)
            &&& (o == Operation::Sll <==> op == 0x33 && f3 == 1 && f7 == 0)
            &&& (o == Operation::Slt <==> op == 0x33 && f3 == 2 && f7 == 0)
            &&& (o == Operation::Sltu <==> op == 0x33 && f3 == 3 && f7 == 0)
            &&& (o == Operation::Xor <==> op == 0x33 && f3 == 4 && f7 == 0)
            &&& (o == Operation::Srl <==> op == 0x33 && f3 == 5 && f7 == 0)
            &&& (o == Operation::Sra <==> op == 0x33 && f3 == 5 && f7 == 0x20)
            &&& (o == Operation::Or <==> op == 0x33 && f3 == 6 && f7 == 0)
            &&& (o == Operation::And <==> op == 0x33 && f3 == 7 && f7 == 0)
            &&& (o == Operation::Fence <==> op == 0x0f && f3 == 0)
            &&& (o == Operation::FenceOther <==> op == 0x0f && f3 != 0)
            &&& (o == Operation::Ecall <==> op == 0x73 && f3 == 0 && word_rs1(i) == 0 && word_rd(i)
                == 0 && f7 == 1)
            &&& (o == Operation::Ebreak <==> op == 0x73 && f3 == 0 && word_rs1(i) == 0 && word_rd(
                i,
            ) == 0 && f7 == 0)
            &&& (o == Operation::System <==> op == 0x73 && !(f3 == 0 && word_rs1(i) == 0
                && word_rd(i) == 0 && (f7 == 0 || f7 == 1)))
        }),
{
    lemma_field_bounds(i);
    lemma_fields_arithmetic(i);
    lemma_distances(i);
    assert((imm_i(i) & 0x1f) == imm_i(i) % 32) by {
        lemma_bits();
    }
}


/// The immediate a trace shows of an instruction (the size of the offset
/// for jumps, branches, loads, stores and `addi`, the five-bit shift amount
/// for the immediate shifts, the raw immediate for the other
/// register-immediate operations and the upper twenty bits for `lui` and
/// `auipc`), and the sign of the offset for `jal`, `addi` and the signed
/// loads.
#[verifier::rlimit(40)]
pub proof fn lemma_decode_operand(i: u32)
    ensures
        ({
            let op = word_opcode(i);
            let f3 = word_funct3(i);
            &&& (op == 0x37 || op == 0x17) ==> operand_of(i) == i / 4096
            &&& op == 0x6f ==> operand_of(i) == abs(jal_distance(i))
            &&& op == 0x63 ==> operand_of(i) == abs(branch_distance(i))
            &&& (op == 0x67 || op == 0x03 || (op == 0x13 && f3 == 0)) ==> operand_of(i) == abs(
                sext12(i),
            )
            &&& op == 0x23 ==> operand_of(i) == abs(store_offset(i))
            &&& (op == 0x13 && (f3 == 1 || f3 == 5)) ==> operand_of(i) == word_imm12(i) % 32
            &&& (op == 0x13 && 2 <= f3 && f3 != 5) ==> operand_of(i) == word_imm12(i)
            &&& !(op == 0x37 || op == 0x17 || op == 0x6f || op == 0x63 || op == 0x67 || op == 0x03
                || op == 0x23 || op == 0x13) ==> operand_of(i) == 0
            &&& minus_of(i) == (word_sign(i) && (op == 0x6f || (op == 0x03 && f3 <= 2) || (op == 0x13
                && f3 == 0)))
        }),
{
    lemma_field_bounds(i);
    lemma_fields_arithmetic(i);
    lemma_distances(i);
    assert((imm_i(i) & 0x1f) == imm_i(i) % 32) by {
        lemma_bits();
    }
    let op = word_opcode(i);
    let v = operand_of(i);
    if op == 0x6f {
        assert(0 <= abs(jal_distance(i)) <= 0x100000);
        assert(v == abs(jal_distance(i)));
    } else if op == 0x63 {
        assert(0 <= abs(branch_distance(i)) <= 4096);
        assert(v == abs(branch_distance(i)));
    } else if op == 0x23 {
        assert(0 <= abs(store_offset(i)) <= 4096);
        assert(v == abs(store_offset(i)));
    } else if op == 0x67 || op == 0x03 || op == 0x13 {
        assert(0 <= abs(sext12(i)) <= 4096);
    }
}

} // verus!
