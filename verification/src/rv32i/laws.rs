use vstd::prelude::*;
use crate::rv32i::decode::{Operation, operation_of};
use crate::rv32i::rom::{example_data, with_bytes};
use crate::rv32i::example_run::{
    data_words, lemma_halted, lemma_outer_loop, lemma_run_add, lemma_setup, program_intact, run,
    runs_cleanly, sorted_signed,
};
use crate::rv32i::isa::{
    CpuState, OPCODE_BRANCH, OPCODE_JAL, OPCODE_JALR, OPCODE_LOAD, OPCODE_STORE, branch_taken,
    can_execute, can_step, execute, fetched, funct3, lemma_field_bounds, load_address, load_width,
    offset_b, offset_j, offset_jalr, opcode, rd, rs1, rs2, step, store_address, store_width,
};

verus! {

/// Executing an instruction keeps 32 registers and 1024 bytes of memory.
pub proof fn lemma_execute_preserves_shape(s: CpuState, i: u32)
    requires
        s.wf(),
        can_execute(s, i),
    ensures
        execute(s, i).wf(),
{
    lemma_field_bounds(i);
}

/// Only a store changes memory.
pub proof fn lemma_only_stores_write_memory(s: CpuState, i: u32)
    requires
        opcode(i) != OPCODE_STORE,
    ensures
        execute(s, i).mem == s.mem,
{
}

/// An instruction changes no register but its destination register, and
/// stores and branches change no register at all.
pub proof fn lemma_only_destination_register_changes(s: CpuState, i: u32)
    requires
        s.wf(),
    ensures
        forall|r: int|
            0 <= r < 32 && r != rd(i) ==> #[trigger] execute(s, i).x[r] == s.x[r],
        execute(s, i).x.len() == 32,
        opcode(i) == OPCODE_STORE || opcode(i) == OPCODE_BRANCH ==> execute(s, i).x == s.x,
{
    lemma_field_bounds(i);
}

/// A store changes no byte outside the bytes it writes.
pub proof fn lemma_store_frame(s: CpuState, st: u32)
    requires
        s.wf(),
        opcode(st) == OPCODE_STORE,
        can_execute(s, st),
    ensures
        forall|j: int|
            0 <= j < 1024 && !(store_address(s, st) <= j < store_address(s, st) + store_width(
                funct3(st),
            )) ==> #[trigger] execute(s, st).mem[j] == s.mem[j],
{
    lemma_field_bounds(st);
}

/// What a zero-extending load reads back of what a store of the same width
/// wrote at the same address: the low byte, the low half word or the word.
pub proof fn lemma_store_then_load(s: CpuState, st: u32, ld: u32)
    requires
        s.wf(),
        opcode(st) == OPCODE_STORE,
        opcode(ld) == OPCODE_LOAD,
        store_width(funct3(st)) != 0,
        load_width(funct3(ld)) == store_width(funct3(st)),
        funct3(ld) != 1,
        can_execute(s, st),
        load_address(execute(s, st), ld) == store_address(s, st),
    ensures
        execute(execute(s, st), ld).reg(rd(ld)) == (if store_width(funct3(st)) == 1 {
            s.reg(rs2(st)) % 256
        } else if store_width(funct3(st)) == 2 {
            s.reg(rs2(st)) % 65536
        } else {
            s.reg(rs2(st))
        }),
{
    lemma_field_bounds(st);
    lemma_field_bounds(ld);
    let a = store_address(s, st);
    let v = s.reg(rs2(st));
    let t = execute(s, st);
    let m = t.mem;
    assert(t.x == s.x);
    let w = store_width(funct3(st));
    if w == 1 {
        assert(m[a] == (v % 256) as u8);
    } else if w == 2 {
        assert(m[a] == (v % 256) as u8);
        assert(m[a + 1] == ((v / 256) % 256) as u8);
        assert((v % 256) + 256 * ((v / 256) % 256) == v % 65536) by (bit_vector);
    } else {
        assert(m[a] == (v % 256) as u8);
        assert(m[a + 1] == ((v / 256) % 256) as u8);
        assert(m[a + 2] == ((v / 65536) % 256) as u8);
        assert(m[a + 3] == ((v / 16777216) % 256) as u8);
        assert((v % 256) + 256 * ((v / 256) % 256) + 65536 * ((v / 65536) % 256) + 16777216 * ((v
            / 16777216) % 256) == v) by (bit_vector);
    }
}

/// Where a step leaves the program counter: a taken branch or a `jal` moves
/// it by its offset; `jalr` moves it by its offset and then by 4, since it
/// does not mark the program counter as loaded; every other instruction
/// advances it by 4.
pub proof fn lemma_step_pc(s: CpuState)
    requires
        s.wf(),
        !s.pc_loaded,
        can_step(s),
    ensures
        ({
            let i = fetched(s);
            let op = opcode(i);
            step(s).pc == if op == OPCODE_JAL {
                s.pc + offset_j(i)
            } else if op == OPCODE_BRANCH && branch_taken(
                funct3(i),
                s.reg(rs1(i)),
                s.reg(rs2(i)),
            ) {
                s.pc + offset_b(i)
            } else if op == OPCODE_JALR {
                s.pc + offset_jalr(i) + 4
            } else {
                s.pc + 4
            }
        }),
        !step(s).pc_loaded,
{
    lemma_field_bounds(fetched(s));
}

/// An instruction that decodes to a fence, a system instruction or an
/// unspecified operation changes nothing.
pub proof fn lemma_no_op_operations(s: CpuState, i: u32)
    requires
        operation_of(i) == Operation::Unspecified || operation_of(i) == Operation::Fence
            || operation_of(i) == Operation::FenceOther || operation_of(i) == Operation::Ecall
            || operation_of(i) == Operation::Ebreak || operation_of(i) == Operation::System,
    ensures
        execute(s, i) == s,
{
    lemma_field_bounds(i);
}

/// The example program sorts its data: started at address 0 with register
/// 0 zero and the program in place (as after `new` and `write_example`),
/// whatever the sixteen data bytes and the other registers hold, every one
/// of 72 or more steps can be carried out, and afterwards the program has
/// halted at 0x54 with the four data words sorted as signed values and a
/// permutation of the words it started with.
pub proof fn lemma_example_program_sorts(s: CpuState, n: nat)
    requires
        s.wf(),
        s.pc == 0,
        !s.pc_loaded,
        s.x[0] == 0,
        program_intact(s.mem),
        n >= 72,
    ensures
        runs_cleanly(s, n),
        run(s, n).pc == 0x54,
        sorted_signed(data_words(run(s, n).mem)),
        data_words(run(s, n).mem).to_multiset() == data_words(s.mem).to_multiset(),
{
    let orig = data_words(s.mem);
    lemma_setup(s);
    let t = lemma_outer_loop(run(s, 4), 1, orig);
    lemma_run_add(s, 4, t);
    let halted = run(s, 4 + t);
    assert(4 + t <= 72) by {
        reveal_with_fuel(crate::rv32i::example_run::remaining, 5);
    }
    lemma_halted(halted, (n - (4 + t)) as nat);
    lemma_run_add(s, 4 + t, (n - (4 + t)) as nat);
}

/// The example data, once written, reads back as the words 6, 4, 7 and 1.
pub proof fn lemma_example_data_words(m: Seq<u8>)
    requires
        m.len() == 1024,
    ensures
        data_words(with_bytes(m, 0x200, example_data())) == seq![6u32, 4, 7, 1],
{
    let w = with_bytes(m, 0x200, example_data());
    assert(data_words(w) =~= seq![6u32, 4, 7, 1]);
}

} // verus!
