//! The instruction set, and the decoder from a sixteen-bit word.

use vstd::prelude::*;

verus! {

/// One decoded instruction. Register operands are indices `0..16`,
/// addresses are twelve bits wide and a sprite height is at most 15.
#[derive(Clone, Copy, Debug, PartialEq, Eq, Structural)]
pub enum Instruction {
    /// `00E0`: switch every pixel off.
    ClearDisplay,
    /// `00EE`: return from a subroutine.
    Return,
    /// `1nnn`: jump to `addr`.
    Jump { addr: u16 },
    /// `2nnn`: call the subroutine at `addr`.
    Call { addr: u16 },
    /// `3xnn`: skip the next instruction if `Vx == nn`.
    SkipEqImm { x: u8, nn: u8 },
    /// `4xnn`: skip the next instruction if `Vx != nn`.
    SkipNeImm { x: u8, nn: u8 },
    /// `5xy_`: skip the next instruction if `Vx == Vy`.
    SkipEqReg { x: u8, y: u8 },
    /// `6xnn`: `Vx = nn`.
    LoadImm { x: u8, nn: u8 },
    /// `7xnn`: `Vx += nn`, wrapping, flag untouched.
    AddImm { x: u8, nn: u8 },
    /// `8xy0`: `Vx = Vy`.
    Move { x: u8, y: u8 },
    /// `8xy1`: `Vx |= Vy`.
    Or { x: u8, y: u8 },
    /// `8xy2`: `Vx &= Vy`.
    And { x: u8, y: u8 },
    /// `8xy3`: `Vx ^= Vy`.
    Xor { x: u8, y: u8 },
    /// `8xy4`: `Vx += Vy`, `VF` = carry.
    Add { x: u8, y: u8 },
    /// `8xy5`: `Vx -= Vy`, `VF` = no borrow.
    Sub { x: u8, y: u8 },
    /// `8xy6`: `Vx >>= 1`, `VF` = the bit shifted out.
    ShiftRight { x: u8 },
    /// `8xy7`: `Vx = Vy - Vx`, `VF` = no borrow.
    SubReverse { x: u8, y: u8 },
    /// `8xyE`: `Vx <<= 1`, `VF` = the bit shifted out.
    ShiftLeft { x: u8 },
    /// `9xy_`: skip the next instruction if `Vx != Vy`.
    SkipNeReg { x: u8, y: u8 },
    /// `Annn`: `I = addr`.
    LoadIndex { addr: u16 },
    /// `Bnnn`: jump to `addr + V0`.
    JumpOffset { addr: u16 },
    /// `Cxnn`: `Vx = nn & random byte`.
    Random { x: u8, nn: u8 },
    /// `Dxyn`: draw the `n`-row sprite at `I` at position `(Vx, Vy)`.
    Draw { x: u8, y: u8, n: u8 },
    /// `Ex9E`: skip the next instruction if key `Vx` is held.
    SkipKey { x: u8 },
    /// `ExA1`: skip the next instruction if key `Vx` is not held.
    SkipNotKey { x: u8 },
    /// `Fx07`: `Vx = delay timer`.
    LoadDelay { x: u8 },
    /// `Fx0A`: wait for a key and store its index in `Vx`.
    WaitKey { x: u8 },
    /// `Fx15`: `delay timer = Vx`.
    SetDelay { x: u8 },
    /// `Fx18`: `sound timer = Vx`.
    SetSound { x: u8 },
    /// `Fx1E`: `I += Vx`, wrapping.
    AddIndex { x: u8 },
    /// `Fx29`: `I` = address of the font glyph for digit `Vx`.
    FontAddr { x: u8 },
    /// `Fx33`: store the three decimal digits of `Vx` at `I`, `I+1`, `I+2`.
    StoreBcd { x: u8 },
    /// `Fx55`: store `V0..=Vx` at `I..=I+x`.
    StoreRegs { x: u8 },
    /// `Fx65`: load `V0..=Vx` from `I..=I+x`.
    LoadRegs { x: u8 },
}

impl Instruction {
    /// Every operand is within the width of its field in the word.
    pub open spec fn wf(self) -> bool {
        match self {
            Instruction::ClearDisplay | Instruction::Return => true,
            Instruction::Jump { addr }
            | Instruction::Call { addr }
            | Instruction::LoadIndex { addr }
            | Instruction::JumpOffset { addr } => addr < 0x1000,
            Instruction::SkipEqImm { x, nn }
            | Instruction::SkipNeImm { x, nn }
            | Instruction::LoadImm { x, nn }
            | Instruction::AddImm { x, nn }
            | Instruction::Random { x, nn } => x < 16,
            Instruction::SkipEqReg { x, y }
            | Instruction::Move { x, y }
            | Instruction::Or { x, y }
            | Instruction::And { x, y }
            | Instruction::Xor { x, y }
            | Instruction::Add { x, y }
            | Instruction::Sub { x, y }
            | Instruction::SubReverse { x, y }
            | Instruction::SkipNeReg { x, y } => x < 16 && y < 16,
            Instruction::Draw { x, y, n } => x < 16 && y < 16 && n < 16,
            Instruction::ShiftRight { x }
            | Instruction::ShiftLeft { x }
            | Instruction::SkipKey { x }
            | Instruction::SkipNotKey { x }
            | Instruction::LoadDelay { x }
            | Instruction::WaitKey { x }
            | Instruction::SetDelay { x }
            | Instruction::SetSound { x }
            | Instruction::AddIndex { x }
            | Instruction::FontAddr { x }
            | Instruction::StoreBcd { x }
            | Instruction::StoreRegs { x }
            | Instruction::LoadRegs { x } => x < 16,
        }
    }
}

/// The top nibble of the word: it selects the instruction class.
pub open spec fn prefix_of(opcode: u16) -> u8 {
    (opcode / 0x1000) as u8
}

/// The second nibble: the first register operand.
pub open spec fn x_of(opcode: u16) -> u8 {
    ((opcode / 0x100) % 0x10) as u8
}

/// The third nibble: the second register operand.
pub open spec fn y_of(opcode: u16) -> u8 {
    ((opcode / 0x10) % 0x10) as u8
}

/// The fourth nibble.
pub open spec fn n_of(opcode: u16) -> u8 {
    (opcode % 0x10) as u8
}

/// The low byte.
pub open spec fn nn_of(opcode: u16) -> u8 {
    (opcode % 0x100) as u8
}

/// The low twelve bits.
pub open spec fn nnn_of(opcode: u16) -> u16 {
    (opcode % 0x1000) as u16
}

/// Decoding of the register-to-register class `8xy_`, selected by the
/// fourth nibble.
pub open spec fn decode_alu(x: u8, y: u8, n: u8) -> Option<Instruction> {
    if n == 0x0 {
        Some(Instruction::Move { x, y })
    } else if n == 0x1 {
        Some(Instruction::Or { x, y })
    } else if n == 0x2 {
        Some(Instruction::And { x, y })
    } else if n == 0x3 {
        Some(Instruction::Xor { x, y })
    } else if n == 0x4 {
        Some(Instruction::Add { x, y })
    } else if n == 0x5 {
        Some(Instruction::Sub { x, y })
    } else if n == 0x6 {
        Some(Instruction::ShiftRight { x })
    } else if n == 0x7 {
        Some(Instruction::SubReverse { x, y })
    } else if n == 0xE {
        Some(Instruction::ShiftLeft { x })
    } else {
        None
    }
}

/// Decoding of the class `Fx__`, selected by the low byte.
pub open spec fn decode_misc(x: u8, nn: u8) -> Option<Instruction> {
    if nn == 0x07 {
        Some(Instruction::LoadDelay { x })
    } else if nn == 0x0A {
        Some(Instruction::WaitKey { x })
    } else if nn == 0x15 {
        Some(Instruction::SetDelay { x })
    } else if nn == 0x18 {
        Some(Instruction::SetSound { x })
    } else if nn == 0x1E {
        Some(Instruction::AddIndex { x })
    } else if nn == 0x29 {
        Some(Instruction::FontAddr { x })
    } else if nn == 0x33 {
        Some(Instruction::StoreBcd { x })
    } else if nn == 0x55 {
        Some(Instruction::StoreRegs { x })
    } else if nn == 0x65 {
        Some(Instruction::LoadRegs { x })
    } else {
        None
    }
}

/// The instruction that a word stands for, or `None` where the word is no
/// instruction. The top nibble selects the class; the classes `0`, `8`,
/// `E` and `F` select further by the low byte or the low nibble, the other
/// classes ignore the bits that hold no operand.
pub open spec fn decode_spec(opcode: u16) -> Option<Instruction> {
    let p = prefix_of(opcode);
    let x = x_of(opcode);
    let y = y_of(opcode);
    let n = n_of(opcode);
    let nn = nn_of(opcode);
    let addr = nnn_of(opcode);
    if p == 0x0 {
        if nn == 0xE0 {
            Some(Instruction::ClearDisplay)
        } else if nn == 0xEE {
            Some(Instruction::Return)
        } else {
            None
        }
    } else if p == 0x1 {
        Some(Instruction::Jump { addr })
    } else if p == 0x2 {
        Some(Instruction::Call { addr })
    } else if p == 0x3 {
        Some(Instruction::SkipEqImm { x, nn })
    } else if p == 0x4 {
        Some(Instruction::SkipNeImm { x, nn })
    } else if p == 0x5 {
        Some(Instruction::SkipEqReg { x, y })
    } else if p == 0x6 {
        Some(Instruction::LoadImm { x, nn })
    } else if p == 0x7 {
        Some(Instruction::AddImm { x, nn })
    } else if p == 0x8 {
        decode_alu(x, y, n)
    } else if p == 0x9 {
        Some(Instruction::SkipNeReg { x, y })
    } else if p == 0xA {
        Some(Instruction::LoadIndex { addr })
    } else if p == 0xB {
        Some(Instruction::JumpOffset { addr })
    } else if p == 0xC {
        Some(Instruction::Random { x, nn })
    } else if p == 0xD {
        Some(Instruction::Draw { x, y, n })
    } else if p == 0xE {
        if nn == 0x9E {
            Some(Instruction::SkipKey { x })
        } else if nn == 0xA1 {
            Some(Instruction::SkipNotKey { x })
        } else {
            None
        }
    } else {
        decode_misc(x, nn)
    }
}

/// Whatever the decoder yields has its operands within their fields.
pub proof fn lemma_decode_wf(opcode: u16)
    ensures
        decode_spec(opcode) matches Some(instr) ==> instr.wf(),
{
}

/// The fields of a word, read with shifts and masks, are the fields that
/// the decoder is specified over.
pub proof fn lemma_fields(opcode: u16)
    ensures
        prefix_of(opcode) == (opcode & 0xf000) >> 12,
        x_of(opcode) == (opcode & 0x0f00) >> 8,
        y_of(opcode) == (opcode & 0x00f0) >> 4,
        n_of(opcode) == opcode & 0x000f,
        nn_of(opcode) == opcode & 0x00ff,
        nnn_of(opcode) == opcode & 0x0fff,
{
    assert(opcode / 0x1000 == (opcode & 0xf000) >> 12) by (bit_vector);
    assert((opcode / 0x100) % 0x10 == (opcode & 0x0f00) >> 8) by (bit_vector);
    assert((opcode / 0x10) % 0x10 == (opcode & 0x00f0) >> 4) by (bit_vector);
    assert(opcode % 0x10 == opcode & 0x000f) by (bit_vector);
    assert(opcode % 0x100 == opcode & 0x00ff) by (bit_vector);
    assert(opcode % 0x1000 == opcode & 0x0fff) by (bit_vector);
}

/// Decodes one instruction word.
pub fn decode(opcode: u16) -> (r: Option<Instruction>)
    ensures
        r == decode_spec(opcode),
        r matches Some(instr) ==> instr.wf(),
{
    proof {
        lemma_fields(opcode);
    }
    let prefix: u8 = ((opcode & 0xf000) >> 12) as u8;
    let x: u8 = ((opcode & 0x0f00) >> 8) as u8;
    let y: u8 = ((opcode & 0x00f0) >> 4) as u8;
    let n: u8 = (opcode & 0x000f) as u8;
    let nn: u8 = (opcode & 0x00ff) as u8;
    let addr: u16 = opcode & 0x0fff;
    match prefix {
        0x0 => match nn {
            0xE0 => Some(Instruction::ClearDisplay),
            0xEE => Some(Instruction::Return),
            _ => None,
        },
        0x1 => Some(Instruction::Jump { addr }),
        0x2 => Some(Instruction::Call { addr }),
        0x3 => Some(Instruction::SkipEqImm { x, nn }),
        0x4 => Some(Instruction::SkipNeImm { x, nn }),
        0x5 => Some(Instruction::SkipEqReg { x, y }),
        0x6 => Some(Instruction::LoadImm { x, nn }),
        0x7 => Some(Instruction::AddImm { x, nn }),
        0x8 => match n {
            0x0 => Some(Instruction::Move { x, y }),
            0x1 => Some(Instruction::Or { x, y }),
            0x2 => Some(Instruction::And { x, y }),
            0x3 => Some(Instruction::Xor { x, y }),
            0x4 => Some(Instruction::Add { x, y }),
            0x5 => Some(Instruction::Sub { x, y }),
            0x6 => Some(Instruction::ShiftRight { x }),
            0x7 => Some(Instruction::SubReverse { x, y }),
            0xE => Some(Instruction::ShiftLeft { x }),
            _ => None,
        },
        0x9 => Some(Instruction::SkipNeReg { x, y }),
        0xA => Some(Instruction::LoadIndex { addr }),
        0xB => Some(Instruction::JumpOffset { addr }),
        0xC => Some(Instruction::Random { x, nn }),
        0xD => Some(Instruction::Draw { x, y, n }),
        0xE => match nn {
            0x9E => Some(Instruction::SkipKey { x }),
            0xA1 => Some(Instruction::SkipNotKey { x }),
            _ => None,
        },
        0xF => match nn {
            0x07 => Some(Instruction::LoadDelay { x }),
            0x0A => Some(Instruction::WaitKey { x }),
            0x15 => Some(Instruction::SetDelay { x }),
            0x18 => Some(Instruction::SetSound { x }),
            0x1E => Some(Instruction::AddIndex { x }),
            0x29 => Some(Instruction::FontAddr { x }),
            0x33 => Some(Instruction::StoreBcd { x }),
            0x55 => Some(Instruction::StoreRegs { x }),
            0x65 => Some(Instruction::LoadRegs { x }),
            _ => None,
        },
        _ => None,
    }
}

} // verus!
