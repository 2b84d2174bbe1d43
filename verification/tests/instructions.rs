use chip8::{Chip8, Chip8Error};

fn machine(rom: &[u8]) -> Chip8 {
    Chip8::with_rom_data(rom).unwrap()
}

fn run(chip: &mut Chip8, steps: usize) {
    for _ in 0..steps {
        assert_eq!(chip.tick_at(0, 0), Ok(()));
    }
}

#[test]
fn load_then_add_registers() {
    let mut chip = machine(&[0x60, 0x05, 0x61, 0x03, 0x80, 0x14]);
    run(&mut chip, 3);
    assert_eq!(chip.get_v(0), 8);
    assert_eq!(chip.get_v(1), 3);
    assert_eq!(chip.get_v(0xF), 0);
    assert_eq!(chip.get_pc(), 0x206);
}

#[test]
fn add_registers_sets_carry_on_overflow() {
    // V0 = 200, V1 = 100, V0 += V1
    let mut chip = machine(&[0x60, 200, 0x61, 100, 0x80, 0x14]);
    run(&mut chip, 3);
    assert_eq!(chip.get_v(0), 44);
    assert_eq!(chip.get_v(0xF), 1);
}

#[test]
fn add_registers_at_the_edge_of_overflow() {
    // 255 + 0 does not carry, 255 + 1 does
    let mut chip = machine(&[0x60, 255, 0x61, 0, 0x80, 0x14, 0x62, 255, 0x63, 1, 0x82, 0x34]);
    run(&mut chip, 3);
    assert_eq!((chip.get_v(0), chip.get_v(0xF)), (255, 0));
    run(&mut chip, 3);
    assert_eq!((chip.get_v(2), chip.get_v(0xF)), (0, 1));
}

#[test]
fn add_into_flag_register_keeps_the_flag() {
    // VF = 200, V1 = 100, VF += V1: the carry is written last
    let mut chip = machine(&[0x6F, 200, 0x61, 100, 0x8F, 0x14]);
    run(&mut chip, 3);
    assert_eq!(chip.get_v(0xF), 1);
}

#[test]
fn add_immediate_wraps_and_leaves_flag() {
    let mut chip = machine(&[0x6F, 7, 0x60, 250, 0x70, 10]);
    run(&mut chip, 3);
    assert_eq!(chip.get_v(0), 4);
    assert_eq!(chip.get_v(0xF), 7);
}

#[test]
fn subtract_without_borrow() {
    let mut chip = machine(&[0x60, 10, 0x61, 5, 0x80, 0x15]);
    run(&mut chip, 3);
    assert_eq!(chip.get_v(0), 5);
    assert_eq!(chip.get_v(0xF), 1);
}

#[test]
fn subtract_with_borrow_wraps() {
    let mut chip = machine(&[0x60, 5, 0x61, 10, 0x80, 0x15]);
    run(&mut chip, 3);
    assert_eq!(chip.get_v(0), 251);
    assert_eq!(chip.get_v(0xF), 0);
}

#[test]
fn subtract_equal_values_sets_flag() {
    let mut chip = machine(&[0x60, 9, 0x61, 9, 0x80, 0x15]);
    run(&mut chip, 3);
    assert_eq!(chip.get_v(0), 0);
    assert_eq!(chip.get_v(0xF), 1);
}

#[test]
fn reverse_subtract() {
    // V0 = 5, V1 = 10, V0 = V1 - V0
    let mut chip = machine(&[0x60, 5, 0x61, 10, 0x80, 0x17, 0x62, 10, 0x63, 5, 0x82, 0x37]);
    run(&mut chip, 3);
    assert_eq!((chip.get_v(0), chip.get_v(0xF)), (5, 1));
    run(&mut chip, 3);
    assert_eq!((chip.get_v(2), chip.get_v(0xF)), (251, 0));
}

#[test]
fn shift_right_moves_low_bit_to_flag() {
    let mut chip = machine(&[0x60, 0b1000_0101, 0x80, 0x06, 0x61, 0b0000_0100, 0x81, 0x06]);
    run(&mut chip, 2);
    assert_eq!((chip.get_v(0), chip.get_v(0xF)), (0b0100_0010, 1));
    run(&mut chip, 2);
    assert_eq!((chip.get_v(1), chip.get_v(0xF)), (0b0000_0010, 0));
}

#[test]
fn shift_left_moves_high_bit_to_flag() {
    let mut chip = machine(&[0x60, 0b1000_0101, 0x80, 0x0E, 0x61, 0b0100_0001, 0x81, 0x0E]);
    run(&mut chip, 2);
    assert_eq!((chip.get_v(0), chip.get_v(0xF)), (0b0000_1010, 1));
    run(&mut chip, 2);
    assert_eq!((chip.get_v(1), chip.get_v(0xF)), (0b1000_0010, 0));
}

#[test]
fn shift_reads_the_target_register() {
    // V0 = 2, V1 = 0xFF, shift V0 right with y = 1: V1 plays no part
    let mut chip = machine(&[0x60, 2, 0x61, 0xFF, 0x80, 0x16]);
    run(&mut chip, 3);
    assert_eq!((chip.get_v(0), chip.get_v(1), chip.get_v(0xF)), (1, 0xFF, 0));
}

#[test]
fn bitwise_operations_leave_flag() {
    let mut chip = machine(&[
        0x6F, 9, 0x60, 0b1100, 0x61, 0b1010, 0x80, 0x11, 0x62, 0b1100, 0x82, 0x12, 0x63, 0b1100,
        0x83, 0x13, 0x84, 0x10,
    ]);
    run(&mut chip, 9);
    assert_eq!(chip.get_v(0), 0b1110);
    assert_eq!(chip.get_v(2), 0b1000);
    assert_eq!(chip.get_v(3), 0b0110);
    assert_eq!(chip.get_v(4), 0b1010);
    assert_eq!(chip.get_v(0xF), 9);
}

#[test]
fn jump_sets_program_counter() {
    let mut chip = machine(&[0x1A, 0xBC]);
    run(&mut chip, 1);
    assert_eq!(chip.get_pc(), 0xABC);
}

#[test]
fn jump_with_offset_adds_v0() {
    let mut chip = machine(&[0x60, 0x10, 0xB3, 0x00]);
    run(&mut chip, 2);
    assert_eq!(chip.get_pc(), 0x310);
}

#[test]
fn call_then_return_restores_program_counter() {
    // 0x200: CALL 0x204; 0x202: (unused); 0x204: RET
    let mut chip = machine(&[0x22, 0x04, 0x00, 0x00, 0x00, 0xEE]);
    run(&mut chip, 1);
    assert_eq!(chip.get_pc(), 0x204);
    assert_eq!(chip.get_sp(), 1);
    assert_eq!(chip.get_stack(0), 0x202);
    run(&mut chip, 1);
    assert_eq!(chip.get_pc(), 0x202);
    assert_eq!(chip.get_sp(), 0);
}

#[test]
fn return_on_empty_stack_is_underflow() {
    let mut chip = machine(&[0x00, 0xEE, 0x60, 0x01]);
    assert_eq!(chip.tick_at(0, 0), Err(Chip8Error::StackUnderflow));
    assert_eq!(chip.get_pc(), 0x202);
    assert_eq!(chip.get_sp(), 0);
    assert_eq!(chip.tick_at(0, 0), Ok(()));
    assert_eq!(chip.get_v(0), 1);
}

#[test]
fn seventeenth_nested_call_is_overflow() {
    // CALL 0x200 calls itself for ever
    let mut chip = machine(&[0x22, 0x00]);
    run(&mut chip, 16);
    assert_eq!(chip.get_sp(), 16);
    assert_eq!(chip.get_stack(15), 0x202);
    assert_eq!(chip.tick_at(0, 0), Err(Chip8Error::StackOverflow));
    assert_eq!(chip.get_sp(), 16);
    assert_eq!(chip.get_pc(), 0x202);
}

#[test]
fn skip_instructions() {
    let mut chip = machine(&[
        0x60, 0x11, // 200: V0 = 0x11
        0x30, 0x11, // 202: skip (equal)
        0x00, 0x00, // 204
        0x30, 0x12, // 206: no skip
        0x40, 0x12, // 208: skip (not equal)
        0x00, 0x00, // 20A
        0x40, 0x11, // 20C: no skip
        0x61, 0x11, // 20E: V1 = 0x11
        0x50, 0x10, // 210: skip (V0 == V1)
        0x00, 0x00, // 212
        0x90, 0x10, // 214: no skip
        0x62, 0x01, // 216: V2 = 1
        0x90, 0x20, // 218: skip (V0 != V2)
        0x00, 0x00, // 21A
        0x50, 0x20, // 21C: no skip
    ]);
    run(&mut chip, 2);
    assert_eq!(chip.get_pc(), 0x206);
    run(&mut chip, 1);
    assert_eq!(chip.get_pc(), 0x208);
    run(&mut chip, 1);
    assert_eq!(chip.get_pc(), 0x20C);
    run(&mut chip, 1);
    assert_eq!(chip.get_pc(), 0x20E);
    run(&mut chip, 2);
    assert_eq!(chip.get_pc(), 0x214);
    run(&mut chip, 1);
    assert_eq!(chip.get_pc(), 0x216);
    run(&mut chip, 2);
    assert_eq!(chip.get_pc(), 0x21C);
    run(&mut chip, 1);
    assert_eq!(chip.get_pc(), 0x21E);
}

#[test]
fn index_register_operations() {
    // I = 0xFFF, V0 = 2, I += V0, then V1 = 0xA, I = glyph of V1
    let mut chip = machine(&[0xAF, 0xFF, 0x60, 0x02, 0xF0, 0x1E, 0x61, 0x0A, 0xF1, 0x29]);
    run(&mut chip, 1);
    assert_eq!(chip.get_i(), 0xFFF);
    run(&mut chip, 2);
    assert_eq!(chip.get_i(), 0x1001);
    run(&mut chip, 2);
    assert_eq!(chip.get_i(), 50);
}

#[test]
fn bcd_of_234() {
    // V0 = 234, I = 0x300, store the digits
    let mut chip = machine(&[0x60, 234, 0xA3, 0x00, 0xF0, 0x33]);
    run(&mut chip, 3);
    assert_eq!(chip.get_mem(0x300), 2);
    assert_eq!(chip.get_mem(0x301), 3);
    assert_eq!(chip.get_mem(0x302), 4);
    assert_eq!(chip.get_mem(0x303), 0);
}

#[test]
fn bcd_of_small_numbers() {
    let mut chip = machine(&[0x60, 7, 0xA3, 0x00, 0xF0, 0x33, 0x61, 255, 0xA3, 0x10, 0xF1, 0x33]);
    run(&mut chip, 3);
    assert_eq!((chip.get_mem(0x300), chip.get_mem(0x301), chip.get_mem(0x302)), (0, 0, 7));
    run(&mut chip, 3);
    assert_eq!((chip.get_mem(0x310), chip.get_mem(0x311), chip.get_mem(0x312)), (2, 5, 5));
}

#[test]
fn bcd_past_the_end_of_memory_is_out_of_range() {
    // I = 0xFFE: the third digit would land at 0x1000
    let mut chip = machine(&[0xAF, 0xFE, 0xF0, 0x33]);
    run(&mut chip, 1);
    assert_eq!(chip.tick_at(0, 0), Err(Chip8Error::OutOfRange { pc: 0x204 }));
    assert_eq!(chip.get_mem(0xFFE), 0);
    assert_eq!(chip.get_mem(0xFFF), 0);
}

#[test]
fn store_and_load_registers_include_vx() {
    let mut chip = machine(&[
        0x60, 0x0A, 0x61, 0x0B, 0x62, 0x0C, 0x63, 0x0D, // V0..V3
        0xA3, 0x00, // I = 0x300
        0xF2, 0x55, // store V0..=V2
        0x60, 0x00, 0x61, 0x00, 0x62, 0x00, 0x63, 0x00, // clear them
        0xF1, 0x65, // load V0..=V1
    ]);
    run(&mut chip, 6);
    assert_eq!(chip.get_mem(0x300), 0x0A);
    assert_eq!(chip.get_mem(0x301), 0x0B);
    assert_eq!(chip.get_mem(0x302), 0x0C);
    assert_eq!(chip.get_mem(0x303), 0x00);
    assert_eq!(chip.get_i(), 0x300);
    run(&mut chip, 5);
    assert_eq!(chip.get_v(0), 0x0A);
    assert_eq!(chip.get_v(1), 0x0B);
    assert_eq!(chip.get_v(2), 0x00);
    assert_eq!(chip.get_v(3), 0x00);
}

#[test]
fn store_registers_past_the_end_of_memory_is_out_of_range() {
    // I = 0xFFF, store V0..=V1
    let mut chip = machine(&[0xAF, 0xFF, 0xF1, 0x55, 0xF1, 0x65, 0xF0, 0x55]);
    run(&mut chip, 1);
    assert_eq!(chip.tick_at(0, 0), Err(Chip8Error::OutOfRange { pc: 0x204 }));
    assert_eq!(chip.tick_at(0, 0), Err(Chip8Error::OutOfRange { pc: 0x206 }));
    assert_eq!(chip.tick_at(0, 0), Ok(()));
}

#[test]
fn random_is_masked_by_the_immediate() {
    let mut chip = machine(&[0xC0, 0x0F, 0xC1, 0xF0, 0xC2, 0x00]);
    assert_eq!(chip.tick_at(0, 0xAB), Ok(()));
    assert_eq!(chip.get_v(0), 0x0B);
    assert_eq!(chip.tick_at(0, 0xAB), Ok(()));
    assert_eq!(chip.get_v(1), 0xA0);
    assert_eq!(chip.tick_at(0, 0xFF), Ok(()));
    assert_eq!(chip.get_v(2), 0x00);
}

#[test]
fn unsupported_opcode_is_reported_and_skipped() {
    let mut chip = machine(&[0x00, 0x00, 0x60, 0x07]);
    assert_eq!(
        chip.tick_at(0, 0),
        Err(Chip8Error::UnsupportedOpcode { opcode: 0x0000, pc: 0x202 })
    );
    assert_eq!(chip.get_pc(), 0x202);
    assert_eq!(chip.tick_at(0, 0), Ok(()));
    assert_eq!(chip.get_v(0), 7);
}

#[test]
fn unsupported_opcodes_of_every_class() {
    for word in [0x0123u16, 0x8008, 0x800F, 0xE000, 0xE19F, 0xF000, 0xF0FF, 0xF166] {
        let mut chip = machine(&[(word >> 8) as u8, word as u8]);
        assert_eq!(
            chip.tick_at(0, 0),
            Err(Chip8Error::UnsupportedOpcode { opcode: word, pc: 0x202 })
        );
        for r in 0..16 {
            assert_eq!(chip.get_v(r), 0);
        }
        assert_eq!(chip.get_i(), 0);
        assert_eq!(chip.get_sp(), 0);
    }
}

#[test]
fn fetch_past_the_end_of_memory_is_out_of_range() {
    // JP 0xFFF: the word at 0xFFF would need the cell at 0x1000
    let mut chip = machine(&[0x1F, 0xFF]);
    run(&mut chip, 1);
    assert_eq!(chip.tick_at(0, 0), Err(Chip8Error::OutOfRange { pc: 0xFFF }));
    assert_eq!(chip.get_pc(), 0xFFF);
}

#[test]
fn last_word_of_memory_can_be_fetched() {
    let mut rom = vec![0u8; 0xE00];
    rom[0] = 0x1F;
    rom[1] = 0xFE;
    rom[0xDFE] = 0x60;
    rom[0xDFF] = 0x2A;
    let mut chip = machine(&rom);
    run(&mut chip, 2);
    assert_eq!(chip.get_v(0), 0x2A);
    assert_eq!(chip.get_pc(), 0x1000);
    assert_eq!(chip.tick_at(0, 0), Err(Chip8Error::OutOfRange { pc: 0x1000 }));
}

#[test]
fn timer_registers() {
    // V0 = 9, delay = V0, sound = V0, V1 = delay
    let mut chip = machine(&[0x60, 9, 0xF0, 0x15, 0xF0, 0x18, 0xF1, 0x07]);
    run(&mut chip, 4);
    assert_eq!(chip.get_dt(), 9);
    assert_eq!(chip.get_st(), 9);
    assert_eq!(chip.get_v(1), 9);
    assert!(chip.sound_status());
}
