use lib::rv32i::decode::{decode, Decoded, Operation};

#[test]
fn decode_addi_negative() {
    // addi a5, a5, -1
    assert_eq!(
        decode(0xFFF78793),
        Decoded { operation: Operation::Addi, rd: 15, rs1: 15, rs2: 31, operand: 1, minus: true }
    );
}

#[test]
fn decode_example_program_words() {
    let d = decode(0x20000513);
    assert_eq!(d.operation, Operation::Addi);
    assert_eq!((d.rd, d.rs1, d.operand, d.minus), (10, 0, 0x200, false));
    let d = decode(0x00b76463);
    assert_eq!(d.operation, Operation::Bltu);
    assert_eq!((d.rs1, d.rs2, d.operand), (14, 11, 8));
    let d = decode(0xFE0796E3);
    assert_eq!(d.operation, Operation::Bne);
    assert_eq!((d.rs1, d.rs2, d.operand, d.minus), (15, 0, 20, false));
    let d = decode(0xFC1FF06F);
    assert_eq!(d.operation, Operation::Jal);
    assert_eq!((d.rd, d.operand, d.minus), (0, 64, true));
    let d = decode(0xFFC62883);
    assert_eq!(d.operation, Operation::Lw);
    assert_eq!((d.rd, d.rs1, d.operand, d.minus), (17, 12, 4, true));
    let d = decode(0x01162023);
    assert_eq!(d.operation, Operation::Sw);
    assert_eq!((d.rs2, d.rs1, d.operand), (17, 12, 0));
    let d = decode(0x00F507B3);
    assert_eq!(d.operation, Operation::Add);
    assert_eq!((d.rd, d.rs1, d.rs2), (15, 10, 15));
    let d = decode(0x00279793);
    assert_eq!(d.operation, Operation::Slli);
    assert_eq!(d.operand, 2);
}

#[test]
fn decode_upper_immediates() {
    let d = decode(0x12345 << 12 | 5 << 7 | 0x37);
    assert_eq!((d.operation, d.rd, d.operand), (Operation::Lui, 5, 0x12345));
    let d = decode(0xFFFFF << 12 | 0x17);
    assert_eq!((d.operation, d.operand), (Operation::Auipc, 0xFFFFF));
}

#[test]
fn decode_slti_shows_raw_immediate() {
    // slti x2, x1, -5
    let d = decode((0xFFB << 20) | (1 << 15) | (2 << 12) | (2 << 7) | 0x13);
    assert_eq!(d.operation, Operation::Slti);
    assert_eq!((d.operand, d.minus), (0xFFB, false));
}

#[test]
fn decode_shifts_and_loads() {
    let d = decode((0x403 << 20) | (5 << 12) | 0x13);
    assert_eq!((d.operation, d.operand), (Operation::Srai, 3));
    let d = decode((3 << 20) | (5 << 12) | 0x13);
    assert_eq!((d.operation, d.operand), (Operation::Srli, 3));
    let d = decode((0xFFC << 20) | (5 << 12) | 0x03);
    assert_eq!((d.operation, d.operand, d.minus), (Operation::Lhu, 4, false));
    let d = decode((0xFFC << 20) | (6 << 12) | 0x03);
    assert_eq!((d.operation, d.operand, d.minus), (Operation::Lwu, 4, false));
    let d = decode((3 << 12) | 0x03);
    assert_eq!(d.operation, Operation::Unspecified);
}

#[test]
fn decode_system_and_fence() {
    assert_eq!(decode(0x0000_000F).operation, Operation::Fence);
    assert_eq!(decode(0x0000_100F).operation, Operation::FenceOther);
    assert_eq!(decode(0x0200_0073).operation, Operation::Ecall);
    assert_eq!(decode(0x0000_0073).operation, Operation::Ebreak);
    assert_eq!(decode(0x0010_0073).operation, Operation::Ebreak);
    assert_eq!(decode(0x0000_1073).operation, Operation::System);
    assert_eq!(decode(0xFFFF_FFFF).operation, Operation::Unspecified);
    assert_eq!(decode(0x0200_0033).operation, Operation::Unspecified);
}

#[test]
fn decode_sub_and_sra() {
    assert_eq!(decode(0x4000_0033).operation, Operation::Sub);
    assert_eq!(decode(0x4000_5033).operation, Operation::Sra);
    assert_eq!(decode(0x0000_5033).operation, Operation::Srl);
}

#[test]
fn decode_branch_most_negative_offset() {
    // beq x0, x0, -4096
    let d = decode(0x8000_0063);
    assert_eq!((d.operation, d.operand, d.minus), (Operation::Beq, 0, false));
}
