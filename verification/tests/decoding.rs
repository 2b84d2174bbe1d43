use chip8::alu::{add_registers, decimal_digits, shift_left, shift_right, sub_registers};
use chip8::instruction::decode;
use chip8::Instruction;

#[test]
fn decode_every_instruction() {
    let table = [
        (0x00E0u16, Instruction::ClearDisplay),
        (0x00EE, Instruction::Return),
        (0x1ABC, Instruction::Jump { addr: 0xABC }),
        (0x2ABC, Instruction::Call { addr: 0xABC }),
        (0x3A12, Instruction::SkipEqImm { x: 0xA, nn: 0x12 }),
        (0x4A12, Instruction::SkipNeImm { x: 0xA, nn: 0x12 }),
        (0x5AB0, Instruction::SkipEqReg { x: 0xA, y: 0xB }),
        (0x6A12, Instruction::LoadImm { x: 0xA, nn: 0x12 }),
        (0x7A12, Instruction::AddImm { x: 0xA, nn: 0x12 }),
        (0x8AB0, Instruction::Move { x: 0xA, y: 0xB }),
        (0x8AB1, Instruction::Or { x: 0xA, y: 0xB }),
        (0x8AB2, Instruction::And { x: 0xA, y: 0xB }),
        (0x8AB3, Instruction::Xor { x: 0xA, y: 0xB }),
        (0x8AB4, Instruction::Add { x: 0xA, y: 0xB }),
        (0x8AB5, Instruction::Sub { x: 0xA, y: 0xB }),
        (0x8AB6, Instruction::ShiftRight { x: 0xA }),
        (0x8AB7, Instruction::SubReverse { x: 0xA, y: 0xB }),
        (0x8ABE, Instruction::ShiftLeft { x: 0xA }),
        (0x9AB0, Instruction::SkipNeReg { x: 0xA, y: 0xB }),
        (0xAABC, Instruction::LoadIndex { addr: 0xABC }),
        (0xBABC, Instruction::JumpOffset { addr: 0xABC }),
        (0xCA12, Instruction::Random { x: 0xA, nn: 0x12 }),
        (0xDAB5, Instruction::Draw { x: 0xA, y: 0xB, n: 5 }),
        (0xEA9E, Instruction::SkipKey { x: 0xA }),
        (0xEAA1, Instruction::SkipNotKey { x: 0xA }),
        (0xFA07, Instruction::LoadDelay { x: 0xA }),
        (0xFA0A, Instruction::WaitKey { x: 0xA }),
        (0xFA15, Instruction::SetDelay { x: 0xA }),
        (0xFA18, Instruction::SetSound { x: 0xA }),
        (0xFA1E, Instruction::AddIndex { x: 0xA }),
        (0xFA29, Instruction::FontAddr { x: 0xA }),
        (0xFA33, Instruction::StoreBcd { x: 0xA }),
        (0xFA55, Instruction::StoreRegs { x: 0xA }),
        (0xFA65, Instruction::LoadRegs { x: 0xA }),
    ];
    for (word, instr) in table {
        assert_eq!(decode(word), Some(instr));
    }
}

#[test]
fn decode_ignores_bits_without_an_operand() {
    assert_eq!(decode(0x0AE0), Some(Instruction::ClearDisplay));
    assert_eq!(decode(0x5AB7), Some(Instruction::SkipEqReg { x: 0xA, y: 0xB }));
    assert_eq!(decode(0x9ABF), Some(Instruction::SkipNeReg { x: 0xA, y: 0xB }));
}

#[test]
fn decode_rejects_unknown_words() {
    let words = [0x0000u16, 0x00E1, 0x8AB8, 0x8ABD, 0x8ABF, 0xEA9F, 0xEA00, 0xFA00, 0xFA66, 0xFAFF];
    for word in words {
        assert_eq!(decode(word), None);
    }
}

#[test]
fn add_registers_for_all_values() {
    for a in 0..=255u8 {
        for b in 0..=255u8 {
            let sum = a as u16 + b as u16;
            assert_eq!(add_registers(a, b), ((sum % 256) as u8, (sum > 255) as u8));
        }
    }
}

#[test]
fn sub_registers_for_all_values() {
    for a in 0..=255u8 {
        for b in 0..=255u8 {
            let diff = (a as i16 - b as i16).rem_euclid(256);
            assert_eq!(sub_registers(a, b), (diff as u8, (a >= b) as u8));
        }
    }
}

#[test]
fn shifts_for_all_values() {
    for v in 0..=255u8 {
        assert_eq!(shift_right(v), (v >> 1, v & 1));
        assert_eq!(shift_left(v), (((v as u16 * 2) % 256) as u8, (v >> 7) & 1));
    }
}

#[test]
fn add_registers_examples() {
    assert_eq!(add_registers(5, 3), (8, 0));
    assert_eq!(add_registers(200, 100), (44, 1));
    assert_eq!(add_registers(255, 1), (0, 1));
    assert_eq!(sub_registers(3, 5), (254, 0));
    assert_eq!(shift_right(0x81), (0x40, 1));
    assert_eq!(shift_left(0x81), (0x02, 1));
}

#[test]
fn decimal_digits_examples() {
    assert_eq!(decimal_digits(234), (2, 3, 4));
    assert_eq!(decimal_digits(0), (0, 0, 0));
    assert_eq!(decimal_digits(255), (2, 5, 5));
    assert_eq!(decimal_digits(100), (1, 0, 0));
    assert_eq!(decimal_digits(9), (0, 0, 9));
}
