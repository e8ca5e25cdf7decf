use lib::rv32i::decode::{decode, Operation};
use lib::rv32i::CpuOfRV32I;

fn i_type(imm: i32, rs1: u32, f3: u32, rd: u32, op: u32) -> u32 {
    (((imm as u32) & 0xfff) << 20) | (rs1 << 15) | (f3 << 12) | (rd << 7) | op
}

fn s_type(imm: i32, rs2: u32, rs1: u32, f3: u32) -> u32 {
    let imm = imm as u32;
    (((imm >> 5) & 0x7f) << 25) | (rs2 << 20) | (rs1 << 15) | (f3 << 12) | ((imm & 0x1f) << 7)
        | 0x23
}

#[test]
fn store_then_load_reads_back_low_bytes() {
    // (store funct3, load funct3, expected)
    let cases: [(u32, u32, u32); 5] = [
        (0, 0, 0xD4),
        (0, 4, 0xD4),
        (1, 5, 0xC3D4),
        (2, 2, 0xA1B2_C3D4),
        (2, 6, 0xA1B2_C3D4),
    ];
    for (sf3, lf3, expected) in cases {
        let mut cpu = CpuOfRV32I::new();
        cpu.x[1] = 0x300;
        cpu.x[2] = 0xA1B2_C3D4;
        cpu.decode_and_execute(s_type(8, 2, 1, sf3));
        cpu.decode_and_execute(i_type(8, 1, lf3, 3, 0x03));
        assert_eq!(cpu.x[3], expected);
    }
}

#[test]
fn store_changes_only_its_bytes() {
    let mut cpu = CpuOfRV32I::new();
    cpu.rom.write_example();
    let before = cpu.rom.rom_data;
    cpu.x[1] = 0x204;
    cpu.x[2] = 0x0102_0304;
    cpu.decode_and_execute(s_type(0, 2, 1, 1));
    for j in 0..1024 {
        if j == 0x204 || j == 0x205 {
            continue;
        }
        assert_eq!(cpu.rom.rom_data[j], before[j]);
    }
    assert_eq!(cpu.rom.rom_data[0x204], 0x04);
    assert_eq!(cpu.rom.rom_data[0x205], 0x03);
}

#[test]
fn only_destination_register_changes() {
    let mut cpu = CpuOfRV32I::new();
    for r in 0..32 {
        cpu.x[r] = r as u32 * 3;
    }
    let before = cpu.x;
    // xori x9, x4, 0x55
    cpu.decode_and_execute(i_type(0x55, 4, 4, 9, 0x13));
    for r in 0..32 {
        if r != 9 {
            assert_eq!(cpu.x[r], before[r]);
        }
    }
    assert_eq!(cpu.x[9], 12 ^ 0x55);
}

#[test]
fn only_stores_write_memory() {
    let mut cpu = CpuOfRV32I::new();
    cpu.rom.write_example();
    let before = cpu.rom.rom_data;
    for _ in 0..10 {
        cpu.next();
    }
    // the first ten steps of the example run no store
    assert_eq!(cpu.rom.rom_data, before);
}

#[test]
fn step_pc_of_each_class() {
    let mut cpu = CpuOfRV32I::new();
    cpu.rom.write_example();
    // addi advances by 4
    cpu.next();
    assert_eq!(cpu.program_counter, 4);
    // taken bltu at 0x10 moves by its offset
    cpu.program_counter = 0x10;
    cpu.x[14] = 1;
    cpu.x[11] = 4;
    cpu.next();
    assert_eq!(cpu.program_counter, 0x18);
    // jal at 0x50 moves by -64
    cpu.program_counter = 0x50;
    cpu.next();
    assert_eq!(cpu.program_counter, 0x10);
    // a branch not taken advances by 4
    cpu.x[14] = 4;
    cpu.next();
    assert_eq!(cpu.program_counter, 0x14);
}

#[test]
fn no_op_operations_change_nothing() {
    for instruction in [0x0000_000Fu32, 0x0000_100F, 0x0200_0073, 0x0000_0073, 0x0000_1073, 0x0200_0033] {
        let op = decode(instruction).operation;
        assert!(matches!(
            op,
            Operation::Fence
                | Operation::FenceOther
                | Operation::Ecall
                | Operation::Ebreak
                | Operation::System
                | Operation::Unspecified
        ));
        let mut cpu = CpuOfRV32I::new();
        cpu.rom.write_example();
        cpu.x[1] = 5;
        let before = cpu;
        cpu.decode_and_execute(instruction);
        assert_eq!(cpu.x, before.x);
        assert_eq!(cpu.program_counter, before.program_counter);
        assert_eq!(cpu.pc_loaded, before.pc_loaded);
        assert_eq!(cpu.rom.rom_data, before.rom.rom_data);
    }
}

fn run_example_with(words: [u32; 4], steps: usize) -> CpuOfRV32I {
    let mut cpu = CpuOfRV32I::new();
    cpu.rom.write_example();
    for (k, w) in words.iter().enumerate() {
        for b in 0..4 {
            cpu.rom.rom_data[0x200 + 4 * k + b] = ((w >> (8 * b)) & 0xff) as u8;
        }
    }
    for _ in 0..steps {
        assert!(cpu.steps_cleanly());
        cpu.next();
    }
    cpu
}

#[test]
fn example_program_sorts_signed_values() {
    let mut cpu = run_example_with([5, 0xFFFF_FFFD, 0x7FFF_FFFF, 0x8000_0000], 72);
    assert_eq!(cpu.program_counter, 0x54);
    assert_eq!(cpu.get_array(), [0x8000_0000, 0xFFFF_FFFD, 5, 0x7FFF_FFFF]);
}

#[test]
fn example_program_worst_case_halts_after_72_steps() {
    let mut cpu = run_example_with([4, 3, 2, 1], 71);
    assert_ne!(cpu.program_counter, 0x54);
    assert!(cpu.steps_cleanly());
    cpu.next();
    assert_eq!(cpu.program_counter, 0x54);
    assert_eq!(cpu.get_array(), [1, 2, 3, 4]);
    // halted: further steps change nothing
    cpu.next();
    assert_eq!(cpu.program_counter, 0x54);
    assert_eq!(cpu.get_array(), [1, 2, 3, 4]);
}

#[test]
fn example_program_keeps_duplicates() {
    let mut cpu = run_example_with([7, 7, 0, 7], 80);
    assert_eq!(cpu.program_counter, 0x54);
    assert_eq!(cpu.get_array(), [0, 7, 7, 7]);
}
