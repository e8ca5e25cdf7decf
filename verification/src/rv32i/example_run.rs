use vstd::prelude::*;
use crate::rv32i::rom::{example_program, load_u32, store_u32};
use crate::rv32i::isa::{
    CpuState, can_step, funct3, funct7, imm_b, imm_i, imm_j, imm_s, negative, opcode, rd, rs1,
    rs2, step,
};

verus! {

// ---------------------------------------------------------------------------
// Runs of several steps
// ---------------------------------------------------------------------------

/// The state after `n` steps from `s`.
pub open spec fn run(s: CpuState, n: nat) -> CpuState
    decreases n,
{
    if n == 0 {
        s
    } else {
        run(step(s), (n - 1) as nat)
    }
}

/// Whether each of the first `n` steps from `s` can be carried out.
pub open spec fn runs_cleanly(s: CpuState, n: nat) -> bool
    decreases n,
{
    n == 0 || (can_step(s) && runs_cleanly(step(s), (n - 1) as nat))
}

/// The four little-endian words at `DATA_BASE`.
pub open spec fn data_words(m: Seq<u8>) -> Seq<u32> {
    Seq::new(4, |k: int| load_u32(m, 0x200 + 4 * k))
}

/// Whether a sequence of words is in ascending order as signed values.
pub open spec fn sorted_signed(s: Seq<u32>) -> bool {
    forall|k: int, l: int| 0 <= k < l < s.len() ==> (s[k] as i32) <= (s[l] as i32)
}

/// Whether the bytes of the example program stand at addresses `0..88`.
pub open spec fn program_intact(m: Seq<u8>) -> bool {
    forall|j: int| 0 <= j < 88 ==> #[trigger] m[j] == example_program()[j]
}

/// A state from which the example program runs as written: well formed,
/// register 0 zero, the flag clear and the program in place.
pub open spec fn ready(s: CpuState) -> bool {
    &&& s.wf()
    &&& !s.pc_loaded
    &&& s.x[0] == 0
    &&& program_intact(s.mem)
}

/// A run composed of a chain of single steps, each of which can be
/// carried out.
pub proof fn lemma_run_chain(states: Seq<CpuState>)
    requires
        states.len() >= 1,
        forall|k: int|
            0 <= k < states.len() - 1 ==> can_step(#[trigger] states[k]) && states[k + 1] == step(
                states[k],
            ),
    ensures
        run(states[0], (states.len() - 1) as nat) == states.last(),
        runs_cleanly(states[0], (states.len() - 1) as nat),
    decreases states.len(),
{
    if states.len() > 1 {
        let rest = states.drop_first();
        assert forall|k: int| 0 <= k < rest.len() - 1 implies can_step(#[trigger] rest[k])
            && rest[k + 1] == step(rest[k]) by {
            assert(rest[k] == states[k + 1]);
            assert(rest[k + 1] == states[k + 2]);
        }
        lemma_run_chain(rest);
        assert(can_step(states[0]));
    }
}

/// A run of `a + b` steps is a run of `a` steps followed by one of `b`.
pub proof fn lemma_run_add(s: CpuState, a: nat, b: nat)
    ensures
        run(s, a + b) == run(run(s, a), b),
        runs_cleanly(s, a) && runs_cleanly(run(s, a), b) ==> runs_cleanly(s, a + b),
    decreases a,
{
    if a > 0 {
        lemma_run_add(step(s), (a - 1) as nat, b);
        assert((a + b - 1) as nat == (a - 1) as nat + b);
    }
}

// ---------------------------------------------------------------------------
// The program's words and their fields
// ---------------------------------------------------------------------------

/// The words of the example program, read from memory.
pub proof fn lemma_program_words(m: Seq<u8>)
    requires
        m.len() == 1024,
        program_intact(m),
    ensures
        load_u32(m, 0x00) == 0x20000513,
        load_u32(m, 0x04) == 0x00400593,
        load_u32(m, 0x08) == 0x20400693,
        load_u32(m, 0x0c) == 0x00100713,
        load_u32(m, 0x10) == 0x00b76463,
        load_u32(m, 0x14) == 0x0400006f,
        load_u32(m, 0x18) == 0x0006a803,
        load_u32(m, 0x1c) == 0x00068613,
        load_u32(m, 0x20) == 0x00070793,
        load_u32(m, 0x24) == 0xffc62883,
        load_u32(m, 0x28) == 0x01185a63,
        load_u32(m, 0x2c) == 0x01162023,
        load_u32(m, 0x30) == 0xfff78793,
        load_u32(m, 0x34) == 0xffc60613,
        load_u32(m, 0x38) == 0xfe0796e3,
        load_u32(m, 0x3c) == 0x00279793,
        load_u32(m, 0x40) == 0x00f507b3,
        load_u32(m, 0x44) == 0x0107a023,
        load_u32(m, 0x48) == 0x00170713,
        load_u32(m, 0x4c) == 0x00468693,
        load_u32(m, 0x50) == 0xfc1ff06f,
        load_u32(m, 0x54) == 0x0000006f,
{
    let p = example_program();
    assert forall|j: int| 0 <= j < 88 implies m[j] == p[j] by {}
}

/// The fields of the example program's words.
pub proof fn lemma_program_fields()
    by (bit_vector)
    ensures
        // addi x10, x0, 0x200
        opcode(0x20000513) == 0x13 && funct3(0x20000513) == 0 && rd(0x20000513) == 10 && rs1(
            0x20000513,
        ) == 0 && imm_i(0x20000513) == 0x200 && !negative(0x20000513),
        // addi x11, x0, 4
        opcode(0x00400593) == 0x13 && funct3(0x00400593) == 0 && rd(0x00400593) == 11 && rs1(
            0x00400593,
        ) == 0 && imm_i(0x00400593) == 4 && !negative(0x00400593),
        // addi x13, x0, 0x204
        opcode(0x20400693) == 0x13 && funct3(0x20400693) == 0 && rd(0x20400693) == 13 && rs1(
            0x20400693,
        ) == 0 && imm_i(0x20400693) == 0x204 && !negative(0x20400693),
        // addi x14, x0, 1
        opcode(0x00100713) == 0x13 && funct3(0x00100713) == 0 && rd(0x00100713) == 14 && rs1(
            0x00100713,
        ) == 0 && imm_i(0x00100713) == 1 && !negative(0x00100713),
        // bltu x14, x11, 8
        opcode(0x00b76463) == 0x63 && funct3(0x00b76463) == 6 && rs1(0x00b76463) == 14 && rs2(
            0x00b76463,
        ) == 11 && imm_b(0x00b76463) == 8 && !negative(0x00b76463),
        // jal x0, 64
        opcode(0x0400006f) == 0x6f && rd(0x0400006f) == 0 && imm_j(0x0400006f) == 64 && !negative(
            0x0400006f,
        ),
        // lw x16, 0(x13)
        opcode(0x0006a803) == 0x03 && funct3(0x0006a803) == 2 && rd(0x0006a803) == 16 && rs1(
            0x0006a803,
        ) == 13 && imm_i(0x0006a803) == 0 && !negative(0x0006a803),
        // addi x12, x13, 0
        opcode(0x00068613) == 0x13 && funct3(0x00068613) == 0 && rd(0x00068613) == 12 && rs1(
            0x00068613,
        ) == 13 && imm_i(0x00068613) == 0 && !negative(0x00068613),
        // addi x15, x14, 0
        opcode(0x00070793) == 0x13 && funct3(0x00070793) == 0 && rd(0x00070793) == 15 && rs1(
            0x00070793,
        ) == 14 && imm_i(0x00070793) == 0 && !negative(0x00070793),
        // lw x17, -4(x12)
        opcode(0xffc62883) == 0x03 && funct3(0xffc62883) == 2 && rd(0xffc62883) == 17 && rs1(
            0xffc62883,
        ) == 12 && imm_i(0xffc62883) == 4092 && negative(0xffc62883),
        // bge x16, x17, 20
        opcode(0x01185a63) == 0x63 && funct3(0x01185a63) == 5 && rs1(0x01185a63) == 16 && rs2(
            0x01185a63,
        ) == 17 && imm_b(0x01185a63) == 20 && !negative(0x01185a63),
        // sw x17, 0(x12)
        opcode(0x01162023) == 0x23 && funct3(0x01162023) == 2 && rs1(0x01162023) == 12 && rs2(
            0x01162023,
        ) == 17 && imm_s(0x01162023) == 0 && !negative(0x01162023),
        // addi x15, x15, -1
        opcode(0xfff78793) == 0x13 && funct3(0xfff78793) == 0 && rd(0xfff78793) == 15 && rs1(
            0xfff78793,
        ) == 15 && imm_i(0xfff78793) == 4095 && negative(0xfff78793),
        // addi x12, x12, -4
        opcode(0xffc60613) == 0x13 && funct3(0xffc60613) == 0 && rd(0xffc60613) == 12 && rs1(
            0xffc60613,
        ) == 12 && imm_i(0xffc60613) == 4092 && negative(0xffc60613),
        // bne x15, x0, -20
        opcode(0xfe0796e3) == 0x63 && funct3(0xfe0796e3) == 1 && rs1(0xfe0796e3) == 15 && rs2(
            0xfe0796e3,
        ) == 0 && imm_b(0xfe0796e3) == 8172 && negative(0xfe0796e3),
        // slli x15, x15, 2
        opcode(0x00279793) == 0x13 && funct3(0x00279793) == 1 && rd(0x00279793) == 15 && rs1(
            0x00279793,
        ) == 15 && imm_i(0x00279793) == 2,
        // add x15, x10, x15
        opcode(0x00f507b3) == 0x33 && funct3(0x00f507b3) == 0 && funct7(0x00f507b3) == 0 && rd(
            0x00f507b3,
        ) == 15 && rs1(0x00f507b3) == 10 && rs2(0x00f507b3) == 15,
        // sw x16, 0(x15)
        opcode(0x0107a023) == 0x23 && funct3(0x0107a023) == 2 && rs1(0x0107a023) == 15 && rs2(
            0x0107a023,
        ) == 16 && imm_s(0x0107a023) == 0 && !negative(0x0107a023),
        // addi x14, x14, 1
        opcode(0x00170713) == 0x13 && funct3(0x00170713) == 0 && rd(0x00170713) == 14 && rs1(
            0x00170713,
        ) == 14 && imm_i(0x00170713) == 1 && !negative(0x00170713),
        // addi x13, x13, 4
        opcode(0x00468693) == 0x13 && funct3(0x00468693) == 0 && rd(0x00468693) == 13 && rs1(
            0x00468693,
        ) == 13 && imm_i(0x00468693) == 4 && !negative(0x00468693),
        // jal x0, -64
        opcode(0xfc1ff06f) == 0x6f && rd(0xfc1ff06f) == 0 && imm_j(0xfc1ff06f) == 2097088
            && negative(0xfc1ff06f),
        // jal x0, 0
        opcode(0x0000006f) == 0x6f && rd(0x0000006f) == 0 && imm_j(0x0000006f) == 0 && !negative(
            0x0000006f,
        ),
        forall|j: u32| j <= 3 ==> #[trigger] ((j << 2) & 0x1f) == 4 * j,
{
}

// ---------------------------------------------------------------------------
// One step at each address of the example program
// ---------------------------------------------------------------------------

pub proof fn lemma_step_at_00(s: CpuState)
    requires
        ready(s),
        s.pc == 0,
    ensures
        can_step(s),
        step(s) == (CpuState { x: s.x.update(10, 0x200), pc: 4, ..s }),
{
    lemma_program_words(s.mem);
    lemma_program_fields();
}

pub proof fn lemma_step_at_04(s: CpuState)
    requires
        ready(s),
        s.pc == 4,
    ensures
        can_step(s),
        step(s) == (CpuState { x: s.x.update(11, 4), pc: 8, ..s }),
{
    lemma_program_words(s.mem);
    lemma_program_fields();
}

pub proof fn lemma_step_at_08(s: CpuState)
    requires
        ready(s),
        s.pc == 8,
    ensures
        can_step(s),
        step(s) == (CpuState { x: s.x.update(13, 0x204), pc: 0xc, ..s }),
{
    lemma_program_words(s.mem);
    lemma_program_fields();
}

pub proof fn lemma_step_at_0c(s: CpuState)
    requires
        ready(s),
        s.pc == 0xc,
    ensures
        can_step(s),
        step(s) == (CpuState { x: s.x.update(14, 1), pc: 0x10, ..s }),
{
    lemma_program_words(s.mem);
    lemma_program_fields();
}

pub proof fn lemma_step_at_10(s: CpuState)
    requires
        ready(s),
        s.pc == 0x10,
    ensures
        can_step(s),
        step(s) == (CpuState { pc: if s.x[14] < s.x[11] { 0x18u32 } else { 0x14u32 }, ..s }),
{
    lemma_program_words(s.mem);
    lemma_program_fields();
}

pub proof fn lemma_step_at_14(s: CpuState)
    requires
        ready(s),
        s.pc == 0x14,
    ensures
        can_step(s),
        step(s) == (CpuState { pc: 0x54, ..s }),
{
    lemma_program_words(s.mem);
    lemma_program_fields();
}

pub proof fn lemma_step_at_18(s: CpuState)
    requires
        ready(s),
        s.pc == 0x18,
        s.x[13] + 4 <= 1024,
    ensures
        can_step(s),
        step(s) == (CpuState { x: s.x.update(16, load_u32(s.mem, s.x[13] as int)), pc: 0x1c, ..s }),
{
    lemma_program_words(s.mem);
    lemma_program_fields();
}

pub proof fn lemma_step_at_1c(s: CpuState)
    requires
        ready(s),
        s.pc == 0x1c,
    ensures
        can_step(s),
        step(s) == (CpuState { x: s.x.update(12, s.x[13]), pc: 0x20, ..s }),
{
    lemma_program_words(s.mem);
    lemma_program_fields();
}

pub proof fn lemma_step_at_20(s: CpuState)
    requires
        ready(s),
        s.pc == 0x20,
    ensures
        can_step(s),
        step(s) == (CpuState { x: s.x.update(15, s.x[14]), pc: 0x24, ..s }),
{
    lemma_program_words(s.mem);
    lemma_program_fields();
}

pub proof fn lemma_step_at_24(s: CpuState)
    requires
        ready(s),
        s.pc == 0x24,
        4 <= s.x[12] <= 1024,
    ensures
        can_step(s),
        step(s) == (CpuState { x: s.x.update(17, load_u32(s.mem, s.x[12] - 4)), pc: 0x28, ..s }),
{
    lemma_program_words(s.mem);
    lemma_program_fields();
}

pub proof fn lemma_step_at_28(s: CpuState)
    requires
        ready(s),
        s.pc == 0x28,
    ensures
        can_step(s),
        step(s) == (CpuState { pc: if (s.x[16] as i32) >= (s.x[17] as i32) { 0x3cu32 } else { 0x2cu32 }, ..s }),
{
    lemma_program_words(s.mem);
    lemma_program_fields();
}

pub proof fn lemma_step_at_2c(s: CpuState)
    requires
        ready(s),
        s.pc == 0x2c,
        s.x[12] + 4 <= 1024,
    ensures
        can_step(s),
        step(s) == (CpuState { mem: store_u32(s.mem, s.x[12] as int, s.x[17]), pc: 0x30, ..s }),
{
    lemma_program_words(s.mem);
    lemma_program_fields();
}

pub proof fn lemma_step_at_30(s: CpuState)
    requires
        ready(s),
        s.pc == 0x30,
        s.x[15] >= 1,
    ensures
        can_step(s),
        step(s) == (CpuState { x: s.x.update(15, (s.x[15] - 1) as u32), pc: 0x34, ..s }),
{
    lemma_program_words(s.mem);
    lemma_program_fields();
}

pub proof fn lemma_step_at_34(s: CpuState)
    requires
        ready(s),
        s.pc == 0x34,
        s.x[12] >= 4,
    ensures
        can_step(s),
        step(s) == (CpuState { x: s.x.update(12, (s.x[12] - 4) as u32), pc: 0x38, ..s }),
{
    lemma_program_words(s.mem);
    lemma_program_fields();
}

pub proof fn lemma_step_at_38(s: CpuState)
    requires
        ready(s),
        s.pc == 0x38,
    ensures
        can_step(s),
        step(s) == (CpuState { pc: if s.x[15] != 0 { 0x24u32 } else { 0x3cu32 }, ..s }),
{
    lemma_program_words(s.mem);
    lemma_program_fields();
}

pub proof fn lemma_step_at_3c(s: CpuState)
    requires
        ready(s),
        s.pc == 0x3c,
        s.x[15] <= 3,
    ensures
        can_step(s),
        step(s) == (CpuState { x: s.x.update(15, (4 * s.x[15]) as u32), pc: 0x40, ..s }),
{
    lemma_program_words(s.mem);
    lemma_program_fields();
}

pub proof fn lemma_step_at_40(s: CpuState)
    requires
        ready(s),
        s.pc == 0x40,
        s.x[10] + s.x[15] <= u32::MAX,
    ensures
        can_step(s),
        step(s) == (CpuState { x: s.x.update(15, (s.x[10] + s.x[15]) as u32), pc: 0x44, ..s }),
{
    lemma_program_words(s.mem);
    lemma_program_fields();
}

pub proof fn lemma_step_at_44(s: CpuState)
    requires
        ready(s),
        s.pc == 0x44,
        s.x[15] + 4 <= 1024,
    ensures
        can_step(s),
        step(s) == (CpuState { mem: store_u32(s.mem, s.x[15] as int, s.x[16]), pc: 0x48, ..s }),
{
    lemma_program_words(s.mem);
    lemma_program_fields();
}

pub proof fn lemma_step_at_48(s: CpuState)
    requires
        ready(s),
        s.pc == 0x48,
        s.x[14] < u32::MAX,
    ensures
        can_step(s),
        step(s) == (CpuState { x: s.x.update(14, (s.x[14] + 1) as u32), pc: 0x4c, ..s }),
{
    lemma_program_words(s.mem);
    lemma_program_fields();
}

pub proof fn lemma_step_at_4c(s: CpuState)
    requires
        ready(s),
        s.pc == 0x4c,
        s.x[13] + 4 <= u32::MAX,
    ensures
        can_step(s),
        step(s) == (CpuState { x: s.x.update(13, (s.x[13] + 4) as u32), pc: 0x50, ..s }),
{
    lemma_program_words(s.mem);
    lemma_program_fields();
}

pub proof fn lemma_step_at_50(s: CpuState)
    requires
        ready(s),
        s.pc == 0x50,
    ensures
        can_step(s),
        step(s) == (CpuState { pc: 0x10, ..s }),
{
    lemma_program_words(s.mem);
    lemma_program_fields();
}

pub proof fn lemma_step_at_54(s: CpuState)
    requires
        ready(s),
        s.pc == 0x54,
    ensures
        can_step(s),
        step(s) == s,
{
    lemma_program_words(s.mem);
    lemma_program_fields();
}

// ---------------------------------------------------------------------------
// The data words
// ---------------------------------------------------------------------------

/// A word stored at a data address replaces that data word alone and
/// leaves the program in place.
pub proof fn lemma_store_data_word(m: Seq<u8>, j: int, v: u32)
    requires
        m.len() == 1024,
        0 <= j < 4,
    ensures
        store_u32(m, 0x200 + 4 * j, v).len() == 1024,
        data_words(store_u32(m, 0x200 + 4 * j, v)) == data_words(m).update(j, v),
        program_intact(m) ==> program_intact(store_u32(m, 0x200 + 4 * j, v)),
{
    let a = 0x200 + 4 * j;
    let m2 = store_u32(m, a, v);
    assert(v % 256 + 256 * ((v / 256) % 256) + 65536 * ((v / 65536) % 256) + 16777216 * ((v
        / 16777216) % 256) == v) by (bit_vector);
    assert(m2[a] == (v % 256) as u8);
    assert(m2[a + 1] == ((v / 256) % 256) as u8);
    assert(m2[a + 2] == ((v / 65536) % 256) as u8);
    assert(m2[a + 3] == ((v / 16777216) % 256) as u8);
    assert(load_u32(m2, a) == v);
    assert forall|k: int| 0 <= k < 4 && k != j implies #[trigger] load_u32(m2, 0x200 + 4 * k)
        == load_u32(m, 0x200 + 4 * k) by {
        assert(m2[0x200 + 4 * k] == m[0x200 + 4 * k]);
        assert(m2[0x200 + 4 * k + 1] == m[0x200 + 4 * k + 1]);
        assert(m2[0x200 + 4 * k + 2] == m[0x200 + 4 * k + 2]);
        assert(m2[0x200 + 4 * k + 3] == m[0x200 + 4 * k + 3]);
    }
    assert(data_words(m2) =~= data_words(m).update(j, v));
    if program_intact(m) {
        assert forall|k: int| 0 <= k < 88 implies #[trigger] m2[k] == example_program()[k] by {
            assert(m2[k] == m[k]);
        }
    }
}

/// Exchanging two elements keeps a sequence's multiset.
pub proof fn lemma_swap_to_multiset(s: Seq<u32>, a: int, b: int)
    requires
        0 <= a < s.len(),
        0 <= b < s.len(),
        a != b,
    ensures
        s.update(a, s[b]).update(b, s[a]).to_multiset() == s.to_multiset(),
{
    broadcast use vstd::seq_lib::group_to_multiset_ensures, vstd::multiset::group_multiset_axioms;

    let t = s.update(a, s[b]);
    assert(t[b] == s[b]);
    assert(s.contains(s[a]));
    assert(s.to_multiset().count(s[a]) > 0);
    assert(t.to_multiset() == s.to_multiset().insert(s[b]).remove(s[a]));
    assert(t.update(b, s[a]).to_multiset() == t.to_multiset().insert(s[a]).remove(s[b]));
    assert(t.update(b, s[a]).to_multiset() =~= s.to_multiset());
}

// ---------------------------------------------------------------------------
// Invariants of the insertion sort
// ---------------------------------------------------------------------------

/// The registers that stay fixed within one pass of the outer loop.
pub open spec fn outer_registers(s: CpuState, i: int) -> bool {
    &&& s.x[10] == 0x200
    &&& s.x[11] == 4
    &&& s.x[14] == i
    &&& s.x[13] == 0x200 + 4 * i
}

/// At the head of the outer loop (address 0x10) with `i` words done: the
/// first `i` words are sorted and all four are a permutation of `orig`.
pub open spec fn outer_invariant(s: CpuState, i: int, orig: Seq<u32>) -> bool {
    let a = data_words(s.mem);
    &&& ready(s)
    &&& s.pc == 0x10
    &&& 1 <= i <= 4
    &&& outer_registers(s, i)
    &&& forall|k: int, l: int|
        #![trigger a[k], a[l]]
        0 <= k < l < i ==> (a[k] as i32) <= (a[l] as i32)
    &&& a.to_multiset() == orig.to_multiset()
}

/// While `key` is being inserted among the first `i + 1` words, with the
/// hole at `j`: filling the hole with `key` gives a permutation of `orig`;
/// the words up to `i` but the hole are sorted; those above the hole
/// exceed `key`.
pub open spec fn hole_invariant(a: Seq<u32>, i: int, j: int, key: u32, orig: Seq<u32>) -> bool {
    &&& a.update(j, key).to_multiset() == orig.to_multiset()
    &&& forall|k: int, l: int|
        #![trigger a[k], a[l]]
        0 <= k < l <= i && k != j && l != j ==> (a[k] as i32) <= (a[l] as i32)
    &&& forall|l: int| j < l <= i ==> (key as i32) < (#[trigger] a[l] as i32)
}

/// At the head of the inner loop (address 0x24).
pub open spec fn inner_invariant(s: CpuState, i: int, j: int, key: u32, orig: Seq<u32>) -> bool {
    &&& ready(s)
    &&& s.pc == 0x24
    &&& 1 <= j <= i <= 3
    &&& outer_registers(s, i)
    &&& s.x[16] == key
    &&& s.x[15] == j
    &&& s.x[12] == 0x200 + 4 * j
    &&& hole_invariant(data_words(s.mem), i, j, key, orig)
}

/// Where the inner loop ends (address 0x3c): the hole is where `key` goes.
pub open spec fn insert_invariant(s: CpuState, i: int, key: u32, orig: Seq<u32>) -> bool {
    let a = data_words(s.mem);
    let j = s.x[15] as int;
    &&& ready(s)
    &&& s.pc == 0x3c
    &&& 1 <= i <= 3
    &&& outer_registers(s, i)
    &&& s.x[16] == key
    &&& 0 <= j <= i
    &&& hole_invariant(a, i, j, key, orig)
    &&& (j == 0 || (key as i32) >= (a[j - 1] as i32))
}

/// The program has halted at 0x54 with the words sorted and permuted.
pub open spec fn done(s: CpuState, orig: Seq<u32>) -> bool {
    &&& ready(s)
    &&& s.pc == 0x54
    &&& sorted_signed(data_words(s.mem))
    &&& data_words(s.mem).to_multiset() == orig.to_multiset()
}

/// Steps the outer loop may still take with `i` words done.
pub open spec fn remaining(i: int) -> int
    decreases 4 - i,
{
    if i >= 4 {
        2
    } else {
        10 + 6 * i + remaining(i + 1)
    }
}

// ---------------------------------------------------------------------------
// The blocks of the program
// ---------------------------------------------------------------------------

/// The four set-up instructions.
pub proof fn lemma_setup(s: CpuState)
    requires
        ready(s),
        s.pc == 0,
    ensures
        runs_cleanly(s, 4),
        outer_invariant(run(s, 4), 1, data_words(s.mem)),
{
    lemma_step_at_00(s);
    let s1 = step(s);
    lemma_step_at_04(s1);
    let s2 = step(s1);
    lemma_step_at_08(s2);
    let s3 = step(s2);
    lemma_step_at_0c(s3);
    let s4 = step(s3);
    lemma_run_chain(seq![s, s1, s2, s3, s4]);
    assert(seq![s, s1, s2, s3, s4].last() == s4);
}

/// Storing the key closes the hole; the outer loop moves on to `i + 1`.
pub proof fn lemma_insert(s: CpuState, i: int, key: u32, orig: Seq<u32>)
    requires
        insert_invariant(s, i, key, orig),
    ensures
        runs_cleanly(s, 6),
        outer_invariant(run(s, 6), i + 1, orig),
{
    let a = data_words(s.mem);
    let j = s.x[15] as int;
    lemma_step_at_3c(s);
    let s1 = step(s);
    lemma_step_at_40(s1);
    let s2 = step(s1);
    lemma_step_at_44(s2);
    let s3 = step(s2);
    lemma_store_data_word(s2.mem, j, key);
    lemma_step_at_48(s3);
    let s4 = step(s3);
    lemma_step_at_4c(s4);
    let s5 = step(s4);
    lemma_step_at_50(s5);
    let s6 = step(s5);
    lemma_run_chain(seq![s, s1, s2, s3, s4, s5, s6]);
    assert(seq![s, s1, s2, s3, s4, s5, s6].last() == s6);
    let b = data_words(s6.mem);
    assert(b == a.update(j, key));
    assert forall|k: int, l: int| 0 <= k < l < i + 1 implies (b[k] as i32) <= (b[l] as i32) by {
        if l == j {
            if k < j - 1 {
                assert((a[k] as i32) <= (a[j - 1] as i32));
            }
        } else if k == j {
        } else {
            assert((a[k] as i32) <= (a[l] as i32));
        }
    }
}

/// The inner loop: shifts words up until the hole is where `key` goes.
pub proof fn lemma_inner_loop(s: CpuState, i: int, j: int, key: u32, orig: Seq<u32>) -> (t: nat)
    requires
        inner_invariant(s, i, j, key, orig),
    ensures
        t <= 6 * j,
        runs_cleanly(s, t),
        insert_invariant(run(s, t), i, key, orig),
    decreases j,
{
    let a = data_words(s.mem);
    lemma_step_at_24(s);
    let s1 = step(s);
    lemma_step_at_28(s1);
    let s2 = step(s1);
    if (key as i32) >= (a[j - 1] as i32) {
        lemma_run_chain(seq![s, s1, s2]);
        assert(seq![s, s1, s2].last() == s2);
        2
    } else {
        lemma_step_at_2c(s2);
        let s3 = step(s2);
        lemma_store_data_word(s2.mem, j, a[j - 1]);
        lemma_step_at_30(s3);
        let s4 = step(s3);
        lemma_step_at_34(s4);
        let s5 = step(s4);
        lemma_step_at_38(s5);
        let s6 = step(s5);
        lemma_run_chain(seq![s, s1, s2, s3, s4, s5, s6]);
        assert(seq![s, s1, s2, s3, s4, s5, s6].last() == s6);
        let b = data_words(s6.mem);
        assert(b == a.update(j, a[j - 1]));
        let h = a.update(j, key);
        lemma_swap_to_multiset(h, j - 1, j);
        assert(h.update(j - 1, h[j]).update(j, h[j - 1]) =~= b.update(j - 1, key));
        assert forall|k: int, l: int|
            #![trigger b[k], b[l]]
            0 <= k < l <= i && k != j - 1 && l != j - 1 implies (b[k] as i32) <= (
            b[l] as i32) by {
            if l == j {
                assert((a[k] as i32) <= (a[j - 1] as i32));
            } else if k == j {
                assert((a[j - 1] as i32) <= (a[l] as i32));
            } else {
                assert((a[k] as i32) <= (a[l] as i32));
            }
        }
        assert forall|l: int| j - 1 < l <= i implies (key as i32) < (#[trigger] b[l] as i32) by {
            if l > j {
                assert((key as i32) < (a[l] as i32));
            }
        }
        if j - 1 != 0 {
            let t1 = lemma_inner_loop(s6, i, j - 1, key, orig);
            lemma_run_add(s, 6, t1);
            6 + t1
        } else {
            6
        }
    }
}

/// The outer loop from `i` words done to the halt.
pub proof fn lemma_outer_loop(s: CpuState, i: int, orig: Seq<u32>) -> (t: nat)
    requires
        outer_invariant(s, i, orig),
    ensures
        t <= remaining(i),
        runs_cleanly(s, t),
        done(run(s, t), orig),
    decreases 4 - i,
{
    let a = data_words(s.mem);
    lemma_step_at_10(s);
    let s1 = step(s);
    if i == 4 {
        lemma_step_at_14(s1);
        let s2 = step(s1);
        lemma_run_chain(seq![s, s1, s2]);
        assert(seq![s, s1, s2].last() == s2);
        2
    } else {
        lemma_step_at_18(s1);
        let s2 = step(s1);
        lemma_step_at_1c(s2);
        let s3 = step(s2);
        lemma_step_at_20(s3);
        let s4 = step(s3);
        lemma_run_chain(seq![s, s1, s2, s3, s4]);
        assert(seq![s, s1, s2, s3, s4].last() == s4);
        let key = a[i];
        assert(a.update(i, key) =~= a);
        let t1 = lemma_inner_loop(s4, i, i, key, orig);
        let e = run(s4, t1);
        lemma_insert(e, i, key, orig);
        let t2 = lemma_outer_loop(run(e, 6), i + 1, orig);
        lemma_run_add(e, 6, t2);
        lemma_run_add(s4, t1, 6 + t2);
        lemma_run_add(s, 4, t1 + 6 + t2);
        4 + t1 + 6 + t2
    }
}

/// Once halted, the program stays where it is.
pub proof fn lemma_halted(s: CpuState, n: nat)
    requires
        ready(s),
        s.pc == 0x54,
    ensures
        run(s, n) == s,
        runs_cleanly(s, n),
    decreases n,
{
    lemma_step_at_54(s);
    if n > 0 {
        lemma_halted(s, (n - 1) as nat);
    }
}

} // verus!
