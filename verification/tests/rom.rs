use lib::rv32i::rom::Rom;
use lib::rv32i::CpuOfRV32I;

#[test]
fn rom_new_is_all_zero() {
    let rom = Rom::new();
    assert!(rom.rom_data.iter().all(|b| *b == 0));
    assert_eq!(rom.rom_data.len(), 1024);
}

#[test]
fn write_example_places_program_and_data() {
    let mut rom = Rom::new();
    rom.rom_data[0x100] = 0xAB;
    rom.rom_data[0x3FF] = 0xCD;
    rom.write_example();
    assert_eq!(&rom.rom_data[0..4], &[0x13, 0x05, 0x00, 0x20]);
    assert_eq!(&rom.rom_data[84..88], &[0x6F, 0x00, 0x00, 0x00]);
    assert_eq!(rom.rom_data[88], 0);
    assert_eq!(&rom.rom_data[0x200..0x204], &[0x06, 0x00, 0x00, 0x00]);
    assert_eq!(&rom.rom_data[0x20C..0x210], &[0x01, 0x00, 0x00, 0x00]);
    assert_eq!(rom.rom_data[0x210], 0);
    // bytes outside both regions keep their values
    assert_eq!(rom.rom_data[0x100], 0xAB);
    assert_eq!(rom.rom_data[0x3FF], 0xCD);
}

#[test]
fn get_array_of_example_data() {
    let mut cpu = CpuOfRV32I::new();
    cpu.rom.write_example();
    assert_eq!(cpu.get_array(), [6, 4, 7, 1]);
}

#[test]
fn get_array_reads_little_endian_words() {
    let mut cpu = CpuOfRV32I::new();
    cpu.rom.rom_data[0x200] = 0x78;
    cpu.rom.rom_data[0x201] = 0x56;
    cpu.rom.rom_data[0x202] = 0x34;
    cpu.rom.rom_data[0x203] = 0x12;
    cpu.rom.rom_data[0x20F] = 0xFF;
    let before = cpu.rom.rom_data;
    assert_eq!(cpu.get_array(), [0x12345678, 0, 0, 0xFF000000]);
    assert_eq!(cpu.rom.rom_data, before);
}

#[test]
fn example_program_sorts_its_data() {
    let mut cpu = CpuOfRV32I::new();
    cpu.rom.write_example();
    for _ in 0..65 {
        assert!(cpu.steps_cleanly());
        cpu.next();
    }
    assert_eq!(cpu.get_array(), [1, 4, 6, 7]);
    // the program ends in a jump to itself at 0x54
    assert_eq!(cpu.program_counter, 0x54);
}
