use lib::rv32i::CpuOfRV32I;

fn r_type(f7: u32, rs2: u32, rs1: u32, f3: u32, rd: u32, op: u32) -> u32 {
    (f7 << 25) | (rs2 << 20) | (rs1 << 15) | (f3 << 12) | (rd << 7) | op
}

fn i_type(imm: i32, rs1: u32, f3: u32, rd: u32, op: u32) -> u32 {
    (((imm as u32) & 0xfff) << 20) | (rs1 << 15) | (f3 << 12) | (rd << 7) | op
}

fn s_type(imm: i32, rs2: u32, rs1: u32, f3: u32) -> u32 {
    let imm = imm as u32;
    (((imm >> 5) & 0x7f) << 25) | (rs2 << 20) | (rs1 << 15) | (f3 << 12) | ((imm & 0x1f) << 7)
        | 0x23
}

fn b_type(imm: i32, rs2: u32, rs1: u32, f3: u32) -> u32 {
    let imm = imm as u32;
    (((imm >> 12) & 1) << 31)
        | (((imm >> 5) & 0x3f) << 25)
        | (rs2 << 20)
        | (rs1 << 15)
        | (f3 << 12)
        | (((imm >> 1) & 0xf) << 8)
        | (((imm >> 11) & 1) << 7)
        | 0x63
}

fn j_type(imm: i32, rd: u32) -> u32 {
    let imm = imm as u32;
    (((imm >> 20) & 1) << 31)
        | (((imm >> 1) & 0x3ff) << 21)
        | (((imm >> 11) & 1) << 20)
        | (((imm >> 12) & 0xff) << 12)
        | (rd << 7)
        | 0x6f
}

fn put_word(cpu: &mut CpuOfRV32I, at: usize, w: u32) {
    cpu.rom.rom_data[at] = (w & 0xff) as u8;
    cpu.rom.rom_data[at + 1] = ((w >> 8) & 0xff) as u8;
    cpu.rom.rom_data[at + 2] = ((w >> 16) & 0xff) as u8;
    cpu.rom.rom_data[at + 3] = ((w >> 24) & 0xff) as u8;
}

fn exec(cpu: &mut CpuOfRV32I, instruction: u32) {
    assert!(cpu.executes_cleanly(instruction));
    cpu.decode_and_execute(instruction);
}

#[test]
fn new_is_all_zero() {
    let cpu = CpuOfRV32I::new();
    assert_eq!(cpu.x, [0; 32]);
    assert_eq!(cpu.program_counter, 0);
    assert!(!cpu.pc_loaded);
    assert!(cpu.rom.rom_data.iter().all(|b| *b == 0));
}

#[test]
fn fetch_reads_little_endian_word_at_pc() {
    let mut cpu = CpuOfRV32I::new();
    cpu.rom.write_example();
    cpu.program_counter = 4;
    let before = cpu;
    assert_eq!(cpu.fetch(), 0x00400593);
    assert_eq!(cpu.x, before.x);
    assert_eq!(cpu.program_counter, 4);
    assert_eq!(cpu.rom.rom_data, before.rom.rom_data);
}

#[test]
fn lui_loads_upper_bits() {
    let mut cpu = CpuOfRV32I::new();
    exec(&mut cpu, 0x12345 << 12 | 5 << 7 | 0x37);
    assert_eq!(cpu.x[5], 0x12345000);
    assert_eq!(cpu.program_counter, 0);
    assert!(!cpu.pc_loaded);
}

#[test]
fn register_zero_is_writable() {
    let mut cpu = CpuOfRV32I::new();
    exec(&mut cpu, 0xABCDE << 12 | 0x37);
    assert_eq!(cpu.x[0], 0xABCDE000);
}

#[test]
fn auipc_adds_pc() {
    let mut cpu = CpuOfRV32I::new();
    cpu.program_counter = 8;
    exec(&mut cpu, 0x1 << 12 | 3 << 7 | 0x17);
    assert_eq!(cpu.x[3], 0x1008);
    assert_eq!(cpu.program_counter, 8);
}

#[test]
fn auipc_overflow_is_refused() {
    let mut cpu = CpuOfRV32I::new();
    cpu.program_counter = 0x1000;
    assert!(!cpu.executes_cleanly(0xFFFFF << 12 | 3 << 7 | 0x17));
}

#[test]
fn jal_forward_links_and_jumps() {
    let mut cpu = CpuOfRV32I::new();
    cpu.program_counter = 0x10;
    exec(&mut cpu, j_type(8, 1));
    assert_eq!(cpu.x[1], 0x14);
    assert_eq!(cpu.program_counter, 0x18);
    assert!(cpu.pc_loaded);
}

#[test]
fn jal_backward_without_link() {
    let mut cpu = CpuOfRV32I::new();
    cpu.program_counter = 0x50;
    exec(&mut cpu, 0xFC1FF06F);
    assert_eq!(cpu.program_counter, 0x10);
    assert_eq!(cpu.x, [0; 32]);
    assert!(cpu.pc_loaded);
}

#[test]
fn jal_below_zero_is_refused() {
    let mut cpu = CpuOfRV32I::new();
    cpu.program_counter = 4;
    assert!(!cpu.executes_cleanly(j_type(-8, 0)));
}

#[test]
fn jal_most_negative_offset_moves_nowhere() {
    let mut cpu = CpuOfRV32I::new();
    cpu.program_counter = 0x40;
    exec(&mut cpu, j_type(-(1 << 20), 0));
    assert_eq!(cpu.program_counter, 0x40);
    assert!(cpu.pc_loaded);
}

#[test]
fn branches_compare_as_specified() {
    // (funct3, a, b, taken)
    let cases: [(u32, u32, u32, bool); 12] = [
        (0, 5, 5, true),
        (0, 5, 6, false),
        (1, 5, 6, true),
        (1, 5, 5, false),
        (4, 0xFFFF_FFFF, 1, true),
        (4, 1, 0xFFFF_FFFF, false),
        (5, 1, 0xFFFF_FFFF, true),
        (5, 0xFFFF_FFFF, 1, false),
        (6, 1, 0xFFFF_FFFF, true),
        (6, 0xFFFF_FFFF, 1, false),
        (7, 0xFFFF_FFFF, 1, true),
        (7, 1, 0xFFFF_FFFF, false),
    ];
    for (f3, a, b, taken) in cases {
        let mut cpu = CpuOfRV32I::new();
        cpu.program_counter = 0x100;
        cpu.x[1] = a;
        cpu.x[2] = b;
        exec(&mut cpu, b_type(-16, 2, 1, f3));
        if taken {
            assert_eq!(cpu.program_counter, 0xF0);
            assert!(cpu.pc_loaded);
        } else {
            assert_eq!(cpu.program_counter, 0x100);
            assert!(!cpu.pc_loaded);
        }
    }
}

#[test]
fn branch_forward_offset() {
    let mut cpu = CpuOfRV32I::new();
    cpu.program_counter = 0x10;
    cpu.x[14] = 1;
    cpu.x[11] = 4;
    exec(&mut cpu, 0x00b76463);
    assert_eq!(cpu.program_counter, 0x18);
}

#[test]
fn branch_unspecified_funct3_does_nothing() {
    let mut cpu = CpuOfRV32I::new();
    cpu.program_counter = 0x100;
    exec(&mut cpu, b_type(8, 0, 0, 2));
    assert_eq!(cpu.program_counter, 0x100);
    assert!(!cpu.pc_loaded);
}

#[test]
fn branch_most_negative_offset_moves_nowhere() {
    let mut cpu = CpuOfRV32I::new();
    cpu.program_counter = 0x100;
    exec(&mut cpu, b_type(-4096, 0, 0, 0));
    assert_eq!(cpu.program_counter, 0x100);
    assert!(cpu.pc_loaded);
}

#[test]
fn jalr_is_relative_to_pc_and_leaves_flag() {
    let mut cpu = CpuOfRV32I::new();
    cpu.program_counter = 0x20;
    cpu.x[5] = 0x300;
    exec(&mut cpu, i_type(9, 5, 0, 1, 0x67));
    assert_eq!(cpu.x[1], 0x24);
    // offset 9 with its lowest bit cleared, added to pc; rs1 is not read
    assert_eq!(cpu.program_counter, 0x28);
    assert!(!cpu.pc_loaded);
}

#[test]
fn jalr_negative_offset() {
    let mut cpu = CpuOfRV32I::new();
    cpu.program_counter = 0x40;
    exec(&mut cpu, i_type(-7, 0, 0, 2, 0x67));
    assert_eq!(cpu.x[2], 0x44);
    assert_eq!(cpu.program_counter, 0x3A);
}

#[test]
fn next_after_jalr_also_advances_by_four() {
    let mut cpu = CpuOfRV32I::new();
    cpu.program_counter = 0x20;
    put_word(&mut cpu, 0x20, i_type(8, 0, 0, 1, 0x67));
    assert!(cpu.steps_cleanly());
    cpu.next();
    assert_eq!(cpu.program_counter, 0x2C);
    assert_eq!(cpu.x[1], 0x24);
    assert!(!cpu.pc_loaded);
}

#[test]
fn loads_extend_as_specified() {
    let mut cpu = CpuOfRV32I::new();
    cpu.rom.rom_data[0x100] = 0x80;
    cpu.rom.rom_data[0x101] = 0xFF;
    cpu.rom.rom_data[0x102] = 0x34;
    cpu.rom.rom_data[0x103] = 0x92;
    cpu.x[1] = 0x104;
    // lb zero-extends on this machine
    exec(&mut cpu, i_type(-4, 1, 0, 2, 0x03));
    assert_eq!(cpu.x[2], 0x80);
    // lh sign-extends
    exec(&mut cpu, i_type(-4, 1, 1, 3, 0x03));
    assert_eq!(cpu.x[3], 0xFFFF_FF80);
    // lw
    exec(&mut cpu, i_type(-4, 1, 2, 4, 0x03));
    assert_eq!(cpu.x[4], 0x9234_FF80);
    // lbu
    exec(&mut cpu, i_type(-3, 1, 4, 5, 0x03));
    assert_eq!(cpu.x[5], 0xFF);
    // lhu
    exec(&mut cpu, i_type(-4, 1, 5, 6, 0x03));
    assert_eq!(cpu.x[6], 0xFF80);
    // funct3 6 reads a word
    exec(&mut cpu, i_type(-4, 1, 6, 7, 0x03));
    assert_eq!(cpu.x[7], 0x9234_FF80);
    // funct3 3 does nothing
    exec(&mut cpu, i_type(-4, 1, 3, 8, 0x03));
    assert_eq!(cpu.x[8], 0);
}

#[test]
fn load_positive_offset() {
    let mut cpu = CpuOfRV32I::new();
    cpu.rom.write_example();
    cpu.x[13] = 0x204;
    exec(&mut cpu, 0x0006a803);
    assert_eq!(cpu.x[16], 4);
    exec(&mut cpu, i_type(8, 13, 2, 17, 0x03));
    assert_eq!(cpu.x[17], 1);
}

#[test]
fn load_out_of_memory_is_refused() {
    let mut cpu = CpuOfRV32I::new();
    cpu.x[1] = 1022;
    assert!(cpu.executes_cleanly(i_type(0, 1, 1, 2, 0x03)));
    assert!(!cpu.executes_cleanly(i_type(0, 1, 2, 2, 0x03)));
    cpu.x[1] = 2;
    assert!(!cpu.executes_cleanly(i_type(-3, 1, 0, 2, 0x03)));
}

#[test]
fn stores_write_little_endian() {
    let mut cpu = CpuOfRV32I::new();
    cpu.x[1] = 0x220;
    cpu.x[2] = 0xA1B2C3D4;
    exec(&mut cpu, s_type(-32, 2, 1, 2));
    exec(&mut cpu, s_type(-24, 2, 1, 1));
    exec(&mut cpu, s_type(-20, 2, 1, 0));
    assert_eq!(cpu.get_array(), [0xA1B2C3D4, 0, 0xC3D4, 0xD4]);
    assert_eq!(cpu.x[2], 0xA1B2C3D4);
}

#[test]
fn store_immediate_skips_bit_eleven() {
    // bit 11 of the word (bit 4 of the offset) is not read
    let mut cpu = CpuOfRV32I::new();
    cpu.x[1] = 0x200;
    cpu.x[2] = 0x55;
    exec(&mut cpu, s_type(0x14, 2, 1, 0));
    assert_eq!(cpu.rom.rom_data[0x204], 0x55);
    assert_eq!(cpu.rom.rom_data[0x214], 0);
}

#[test]
fn negative_store_offset_loses_bit_four() {
    // -8 has bit 4 set, which the store immediate does not read: -24 results
    let mut cpu = CpuOfRV32I::new();
    cpu.x[1] = 0x220;
    cpu.x[2] = 0x77;
    exec(&mut cpu, s_type(-8, 2, 1, 0));
    assert_eq!(cpu.rom.rom_data[0x208], 0x77);
    assert_eq!(cpu.rom.rom_data[0x218], 0);
}

#[test]
fn store_unspecified_funct3_does_nothing() {
    let mut cpu = CpuOfRV32I::new();
    cpu.x[2] = 0xFF;
    exec(&mut cpu, s_type(0, 2, 0, 3));
    assert!(cpu.rom.rom_data.iter().all(|b| *b == 0));
}

#[test]
fn addi_positive_and_negative() {
    let mut cpu = CpuOfRV32I::new();
    exec(&mut cpu, 0x20000513);
    assert_eq!(cpu.x[10], 0x200);
    exec(&mut cpu, i_type(-1, 10, 0, 11, 0x13));
    assert_eq!(cpu.x[11], 0x1FF);
    assert!(!cpu.executes_cleanly(i_type(-2048, 10, 0, 12, 0x13)));
    cpu.x[10] = 2048;
    exec(&mut cpu, i_type(-2048, 10, 0, 12, 0x13));
    assert_eq!(cpu.x[12], 0);
    cpu.x[13] = 0xFFFF_FFFF;
    assert!(!cpu.executes_cleanly(i_type(1, 13, 0, 14, 0x13)));
}

#[test]
fn slti_as_this_machine_computes_it() {
    let mut cpu = CpuOfRV32I::new();
    // non-negative immediate: 0 only for a non-negative register above it
    cpu.x[1] = 10;
    exec(&mut cpu, i_type(5, 1, 2, 2, 0x13));
    assert_eq!(cpu.x[2], 0);
    cpu.x[1] = 3;
    exec(&mut cpu, i_type(5, 1, 2, 2, 0x13));
    assert_eq!(cpu.x[2], 1);
    cpu.x[1] = 0xFFFF_FFF0;
    exec(&mut cpu, i_type(5, 1, 2, 2, 0x13));
    assert_eq!(cpu.x[2], 1);
    // negative immediate -5: 1 only for a negative register above 5
    cpu.x[1] = 0xFFFF_FFF0;
    exec(&mut cpu, i_type(-5, 1, 2, 2, 0x13));
    assert_eq!(cpu.x[2], 1);
    cpu.x[1] = 3;
    exec(&mut cpu, i_type(-5, 1, 2, 2, 0x13));
    assert_eq!(cpu.x[2], 0);
}

#[test]
fn sltiu_xori_ori_andi_use_raw_immediate() {
    let mut cpu = CpuOfRV32I::new();
    cpu.x[1] = 0x0000_0F0F;
    exec(&mut cpu, i_type(-1, 1, 3, 2, 0x13));
    assert_eq!(cpu.x[2], 1);
    exec(&mut cpu, i_type(-1, 1, 4, 3, 0x13));
    assert_eq!(cpu.x[3], 0x0F0F ^ 0xFFF);
    exec(&mut cpu, i_type(0x0F0, 1, 6, 4, 0x13));
    assert_eq!(cpu.x[4], 0x0FFF);
    exec(&mut cpu, i_type(-1, 1, 7, 5, 0x13));
    assert_eq!(cpu.x[5], 0x0F0F);
}

#[test]
fn immediate_shifts_keep_five_bits() {
    let mut cpu = CpuOfRV32I::new();
    cpu.x[15] = 3;
    exec(&mut cpu, 0x00279793);
    assert_eq!(cpu.x[15], 12);
    cpu.x[1] = 0x0000_0FFF;
    exec(&mut cpu, i_type(4, 1, 1, 2, 0x13));
    assert_eq!(cpu.x[2], (0xFFF << 4) & 0x1f);
    exec(&mut cpu, i_type(4, 1, 5, 3, 0x13));
    assert_eq!(cpu.x[3], (0xFFF >> 4) & 0x1f);
}

#[test]
fn srai_is_refused() {
    let cpu = CpuOfRV32I::new();
    assert!(!cpu.executes_cleanly(i_type(0x400 | 3, 1, 5, 2, 0x13)));
    assert!(!cpu.executes_cleanly(i_type(32, 1, 1, 2, 0x13)));
}

#[test]
fn register_register_operations() {
    let mut cpu = CpuOfRV32I::new();
    cpu.x[1] = 0xFFFF_FFF0;
    cpu.x[2] = 3;
    let expect: [(u32, u32, u32); 10] = [
        (0x00, 0, 0xFFFF_FFF3),
        (0x20, 0, 0xFFFF_FFED),
        (0x00, 1, 0xFFFF_FF80),
        (0x00, 2, 1),
        (0x00, 3, 0),
        (0x00, 4, 0xFFFF_FFF3),
        (0x00, 5, 0x1FFF_FFFE),
        (0x20, 5, 0xFFFF_FFFE),
        (0x00, 6, 0xFFFF_FFF3),
        (0x00, 7, 0),
    ];
    for (f7, f3, value) in expect {
        exec(&mut cpu, r_type(f7, 2, 1, f3, 3, 0x33));
        assert_eq!(cpu.x[3], value, "funct7 {} funct3 {}", f7, f3);
    }
}

#[test]
fn register_shift_uses_low_five_bits() {
    let mut cpu = CpuOfRV32I::new();
    cpu.x[1] = 1;
    cpu.x[2] = 33;
    exec(&mut cpu, r_type(0, 2, 1, 1, 3, 0x33));
    assert_eq!(cpu.x[3], 2);
}

#[test]
fn add_and_sub_overflow_are_refused() {
    let mut cpu = CpuOfRV32I::new();
    cpu.x[1] = 0xFFFF_FFFF;
    cpu.x[2] = 1;
    assert!(!cpu.executes_cleanly(r_type(0, 2, 1, 0, 3, 0x33)));
    cpu.x[1] = 0x8000_0000;
    assert!(!cpu.executes_cleanly(r_type(0x20, 2, 1, 0, 3, 0x33)));
    cpu.x[1] = 0x7FFF_FFFF;
    assert!(cpu.executes_cleanly(r_type(0x20, 2, 1, 0, 3, 0x33)));
}

#[test]
fn unspecified_and_nop_instructions_change_nothing() {
    for instruction in [
        r_type(1, 2, 1, 0, 3, 0x33),
        0x0000_000F,
        0x0000_100F,
        0x0000_0073,
        0x0010_0073,
        0xFFFF_FFFF,
        0,
    ] {
        let mut cpu = CpuOfRV32I::new();
        cpu.x[1] = 7;
        cpu.x[2] = 9;
        cpu.program_counter = 0x40;
        let before = cpu;
        exec(&mut cpu, instruction);
        assert_eq!(cpu.x, before.x);
        assert_eq!(cpu.program_counter, 0x40);
        assert!(!cpu.pc_loaded);
        assert_eq!(cpu.rom.rom_data, before.rom.rom_data);
    }
}

#[test]
fn next_advances_by_four_and_clears_flag() {
    let mut cpu = CpuOfRV32I::new();
    cpu.rom.write_example();
    assert!(cpu.steps_cleanly());
    cpu.next();
    assert_eq!(cpu.x[10], 0x200);
    assert_eq!(cpu.program_counter, 4);
    assert!(!cpu.pc_loaded);
    cpu.program_counter = 0x14;
    cpu.next();
    assert_eq!(cpu.program_counter, 0x54);
    assert!(!cpu.pc_loaded);
}

#[test]
fn steps_cleanly_refuses_fetch_past_memory() {
    let mut cpu = CpuOfRV32I::new();
    cpu.program_counter = 1020;
    assert!(cpu.steps_cleanly());
    cpu.program_counter = 1021;
    assert!(!cpu.steps_cleanly());
}

#[test]
fn steps_cleanly_after_far_jump() {
    let mut cpu = CpuOfRV32I::new();
    cpu.program_counter = 1020;
    put_word(&mut cpu, 1020, j_type(0x7FFF0, 0));
    // the jump fits, and a loaded pc is not advanced
    assert!(cpu.steps_cleanly());
    cpu.next();
    assert_eq!(cpu.program_counter, 1020 + 0x7FFF0);
    // a pc beyond memory cannot be fetched
    assert!(!cpu.steps_cleanly());
}
