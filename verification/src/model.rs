//! The mathematical model of the machine: its state as a value, and the
//! effect of one instruction and of one step as functions on that value.
//!
//! Everything here is specification. The executable interpreter is proved
//! to compute these functions.

use crate::alu::{
    add_carry, add_result, shl_flag, shl_result, shr_flag, shr_result, sub_no_borrow, sub_result,
};
use crate::display::{blank, blit, collides};
use crate::error::Chip8Error;
use crate::instruction::{decode_spec, Instruction};
use vstd::prelude::*;

verus! {

/// The number of memory cells.
pub const MEMORY_SIZE: usize = 4096;

/// The address at which a program is loaded and at which execution starts.
pub const PROGRAM_START: usize = 0x200;

/// The largest program that fits between `PROGRAM_START` and the end of
/// memory.
pub const MAX_PROGRAM_SIZE: usize = 0xe00;

/// The sprites of the sixteen hexadecimal digits `0` to `F`. Each byte is
/// one row of eight pixels; each sprite has five rows.
pub const FONT: [u8; 80] = [
    0xf0, 0x90, 0x90, 0x90, 0xf0,  // 0
    0x20, 0x60, 0x20, 0x20, 0x70,  // 1
    0xf0, 0x10, 0xf0, 0x80, 0xf0,  // 2
    0xf0, 0x10, 0xf0, 0x10, 0xf0,  // 3
    0x90, 0x90, 0xf0, 0x10, 0x10,  // 4
    0xf0, 0x80, 0xf0, 0x10, 0xf0,  // 5
    0xf0, 0x80, 0xf0, 0x90, 0xf0,  // 6
    0xf0, 0x10, 0x20, 0x40, 0x40,  // 7
    0xf0, 0x90, 0xf0, 0x90, 0xf0,  // 8
    0xf0, 0x90, 0xf0, 0x10, 0xf0,  // 9
    0xf0, 0x90, 0xf0, 0x90, 0x90,  // A
    0xe0, 0x90, 0xe0, 0x90, 0xe0,  // B
    0xf0, 0x80, 0x80, 0x80, 0xf0,  // C
    0xe0, 0x90, 0x90, 0x90, 0xe0,  // D
    0xf0, 0x80, 0xf0, 0x80, 0xf0,  // E
    0xf0, 0x80, 0xf0, 0x80, 0x80,  // F
];

/// The font as a sequence of bytes, as it stands at the start of memory.
pub open spec fn font() -> Seq<u8> {
    FONT@
}

/// The whole state of the machine.
pub struct State {
    /// The 4096 memory cells.
    pub mem: Seq<u8>,
    /// The sixteen registers `V0` to `VF`.
    pub v: Seq<u8>,
    /// The address register `I`.
    pub i: u16,
    /// The program counter.
    pub pc: u16,
    /// The number of return addresses on the stack.
    pub sp: u8,
    /// The sixteen stack slots; the first `sp` of them are in use.
    pub stack: Seq<u16>,
    /// The delay timer.
    pub dt: u8,
    /// The sound timer.
    pub st: u8,
    /// Which of the sixteen keys are held.
    pub keys: Seq<bool>,
    /// The framebuffer, row by row.
    pub display: Seq<bool>,
    /// Whether the last step drew a sprite.
    pub render_flag: bool,
    /// The time, in nanoseconds, at which the timers last counted down.
    pub last_cycle: u128,
}

impl State {
    /// Every component has its size and the stack pointer is within the
    /// stack.
    pub open spec fn wf(self) -> bool {
        &&& self.mem.len() == 4096
        &&& self.v.len() == 16
        &&& self.stack.len() == 16
        &&& self.keys.len() == 16
        &&& self.display.len() == 2048
        &&& self.sp <= 16
    }

    /// The value of register `x`.
    pub open spec fn reg(self, x: u8) -> u8 {
        self.v[x as int]
    }

    /// The state with register `x` set to `value`.
    pub open spec fn with_reg(self, x: u8, value: u8) -> State {
        State { v: self.v.update(x as int, value), ..self }
    }

    /// The state with the program counter moved past one more instruction
    /// where `cond` holds.
    pub open spec fn skip_if(self, cond: bool) -> State {
        if cond {
            State { pc: advance(self.pc), ..self }
        } else {
            self
        }
    }

    /// The pixel at column `x`, row `y`.
    pub open spec fn pixel(self, x: int, y: int) -> bool {
        self.display[y * 64 + x]
    }

    /// Whether the buzzer should sound.
    pub open spec fn sound_active(self) -> bool {
        self.st > 0
    }
}

/// The state right after construction with the program `rom`: the font at
/// address 0, the program at `PROGRAM_START`, the program counter on its
/// first instruction and everything else zero.
pub open spec fn initial(rom: Seq<u8>) -> State {
    State {
        mem: Seq::new(
            4096,
            |a: int|
                if a < 80 {
                    font()[a]
                } else if 0x200 <= a < 0x200 + rom.len() {
                    rom[a - 0x200]
                } else {
                    0u8
                },
        ),
        v: Seq::new(16, |k: int| 0u8),
        i: 0,
        pc: 0x200,
        sp: 0,
        stack: Seq::new(16, |k: int| 0u16),
        dt: 0,
        st: 0,
        keys: Seq::new(16, |k: int| false),
        display: blank(),
        render_flag: false,
        last_cycle: 0,
    }
}

/// The program counter moved forward by one instruction.
pub open spec fn advance(pc: u16) -> u16 {
    ((pc + 2) % 0x10000) as u16
}

/// The program counter moved back by one instruction.
pub open spec fn rewind(pc: u16) -> u16 {
    ((pc - 2) % 0x10000) as u16
}

/// The lowest index from `from` on at which `keys` holds `true`, or the
/// length of `keys` where there is none.
pub open spec fn first_held_from(keys: Seq<bool>, from: int) -> int
    decreases keys.len() - from,
{
    if from < 0 || from >= keys.len() {
        keys.len() as int
    } else if keys[from] {
        from
    } else {
        first_held_from(keys, from + 1)
    }
}

/// The lowest index of a held key, or `None` where no key is held.
pub open spec fn first_held(keys: Seq<bool>) -> Option<u8> {
    let k = first_held_from(keys, 0);
    if k < keys.len() {
        Some(k as u8)
    } else {
        None
    }
}

/// The instruction word at the program counter, most significant byte
/// first, or `None` where the word would reach past the end of memory.
pub open spec fn fetch(s: State) -> Option<u16> {
    if s.pc + 1 < 4096 {
        Some((s.mem[s.pc as int] * 256 + s.mem[s.pc + 1]) as u16)
    } else {
        None
    }
}

/// The memory after registers `V0..=Vx` have been stored from address `i`.
pub open spec fn store_regs(mem: Seq<u8>, v: Seq<u8>, i: int, x: int) -> Seq<u8> {
    Seq::new(
        mem.len(),
        |a: int|
            if i <= a <= i + x {
                v[a - i]
            } else {
                mem[a]
            },
    )
}

/// The registers after `V0..=Vx` have been loaded from address `i`.
pub open spec fn load_regs(mem: Seq<u8>, v: Seq<u8>, i: int, x: int) -> Seq<u8> {
    Seq::new(
        v.len(),
        |k: int|
            if k <= x {
                mem[i + k]
            } else {
                v[k]
            },
    )
}

/// The effect of one instruction on the state `s`, in which the program
/// counter already stands behind the instruction. `random` is the byte that
/// the random instruction draws; no other instruction looks at it.
///
/// Arithmetic instructions read both operands before they write anything,
/// and write the flag last. An instruction that fails changes nothing.
pub open spec fn execute(s: State, instr: Instruction, random: u8) -> Result<State, Chip8Error> {
    match instr {
        Instruction::ClearDisplay => Ok(State { display: blank(), ..s }),
        Instruction::Return => if s.sp == 0 {
            Err(Chip8Error::StackUnderflow)
        } else {
            Ok(State { sp: (s.sp - 1) as u8, pc: s.stack[s.sp - 1], ..s })
        },
        Instruction::Jump { addr } => Ok(State { pc: addr, ..s }),
        Instruction::Call { addr } => if s.sp >= 16 {
            Err(Chip8Error::StackOverflow)
        } else {
            Ok(
                State {
                    stack: s.stack.update(s.sp as int, s.pc),
                    sp: (s.sp + 1) as u8,
                    pc: addr,
                    ..s
                },
            )
        },
        Instruction::SkipEqImm { x, nn } => Ok(s.skip_if(s.reg(x) == nn)),
        Instruction::SkipNeImm { x, nn } => Ok(s.skip_if(s.reg(x) != nn)),
        Instruction::SkipEqReg { x, y } => Ok(s.skip_if(s.reg(x) == s.reg(y))),
        Instruction::SkipNeReg { x, y } => Ok(s.skip_if(s.reg(x) != s.reg(y))),
        Instruction::LoadImm { x, nn } => Ok(s.with_reg(x, nn)),
        Instruction::AddImm { x, nn } => Ok(s.with_reg(x, add_result(s.reg(x), nn))),
        Instruction::Move { x, y } => Ok(s.with_reg(x, s.reg(y))),
        Instruction::Or { x, y } => Ok(s.with_reg(x, s.reg(x) | s.reg(y))),
        Instruction::And { x, y } => Ok(s.with_reg(x, s.reg(x) & s.reg(y))),
        Instruction::Xor { x, y } => Ok(s.with_reg(x, s.reg(x) ^ s.reg(y))),
        Instruction::Add { x, y } => Ok(
            s.with_reg(x, add_result(s.reg(x), s.reg(y))).with_reg(
                0xF,
                add_carry(s.reg(x), s.reg(y)),
            ),
        ),
        Instruction::Sub { x, y } => Ok(
            s.with_reg(x, sub_result(s.reg(x), s.reg(y))).with_reg(
                0xF,
                sub_no_borrow(s.reg(x), s.reg(y)),
            ),
        ),
        Instruction::SubReverse { x, y } => Ok(
            s.with_reg(x, sub_result(s.reg(y), s.reg(x))).with_reg(
                0xF,
                sub_no_borrow(s.reg(y), s.reg(x)),
            ),
        ),
        Instruction::ShiftRight { x } => Ok(
            s.with_reg(x, shr_result(s.reg(x))).with_reg(0xF, shr_flag(s.reg(x))),
        ),
        Instruction::ShiftLeft { x } => Ok(
            s.with_reg(x, shl_result(s.reg(x))).with_reg(0xF, shl_flag(s.reg(x))),
        ),
        Instruction::LoadIndex { addr } => Ok(State { i: addr, ..s }),
        Instruction::JumpOffset { addr } => Ok(
            State { pc: ((addr + s.reg(0)) % 0x10000) as u16, ..s },
        ),
        Instruction::Random { x, nn } => Ok(s.with_reg(x, nn & random)),
        Instruction::Draw { x, y, n } => if s.i + n > 4096 {
            Err(Chip8Error::OutOfRange { pc: s.pc })
        } else {
            let sprite = s.mem.subrange(s.i as int, s.i + n);
            let hit: u8 = if collides(s.display, sprite, s.reg(x) as int, s.reg(y) as int) {
                1
            } else {
                0
            };
            Ok(
                State {
                    display: blit(s.display, sprite, s.reg(x) as int, s.reg(y) as int),
                    render_flag: true,
                    ..s
                }.with_reg(0xF, hit),
            )
        },
        Instruction::SkipKey { x } => if s.reg(x) >= 16 {
            Err(Chip8Error::OutOfRange { pc: s.pc })
        } else {
            Ok(s.skip_if(s.keys[s.reg(x) as int]))
        },
        Instruction::SkipNotKey { x } => if s.reg(x) >= 16 {
            Err(Chip8Error::OutOfRange { pc: s.pc })
        } else {
            Ok(s.skip_if(!s.keys[s.reg(x) as int]))
        },
        Instruction::LoadDelay { x } => Ok(s.with_reg(x, s.dt)),
        Instruction::WaitKey { x } => match first_held(s.keys) {
            Some(key) => Ok(s.with_reg(x, key)),
            None => Ok(State { pc: rewind(s.pc), ..s }),
        },
        Instruction::SetDelay { x } => Ok(State { dt: s.reg(x), ..s }),
        Instruction::SetSound { x } => Ok(State { st: s.reg(x), ..s }),
        Instruction::AddIndex { x } => Ok(State { i: ((s.i + s.reg(x)) % 0x10000) as u16, ..s }),
        Instruction::FontAddr { x } => Ok(State { i: (5 * s.reg(x)) as u16, ..s }),
        Instruction::StoreBcd { x } => if s.i + 2 >= 4096 {
            Err(Chip8Error::OutOfRange { pc: s.pc })
        } else {
            let vx = s.reg(x);
            Ok(
                State {
                    mem: s.mem.update(s.i as int, vx / 100).update(s.i + 1, (vx / 10) % 10).update(
                        s.i + 2,
                        vx % 10,
                    ),
                    ..s
                },
            )
        },
        Instruction::StoreRegs { x } => if s.i + x >= 4096 {
            Err(Chip8Error::OutOfRange { pc: s.pc })
        } else {
            Ok(State { mem: store_regs(s.mem, s.v, s.i as int, x as int), ..s })
        },
        Instruction::LoadRegs { x } => if s.i + x >= 4096 {
            Err(Chip8Error::OutOfRange { pc: s.pc })
        } else {
            Ok(State { v: load_regs(s.mem, s.v, s.i as int, x as int), ..s })
        },
    }
}

/// Whether an instruction with the specified effect `effect` on `before` is
/// rendered by the state `after` and the reported outcome `r`: on success
/// `after` is the specified state, on failure the error is reported and
/// nothing has changed.
pub open spec fn is_outcome(
    effect: Result<State, Chip8Error>,
    before: State,
    after: State,
    r: Result<(), Chip8Error>,
) -> bool {
    match effect {
        Ok(s1) => r == Ok::<(), Chip8Error>(()) && after == s1,
        Err(e) => r == Err::<(), Chip8Error>(e) && after == before,
    }
}

/// A timer's next value when it counts down: one less, but never below
/// zero.
pub open spec fn count_down(t: u8) -> u8 {
    if t > 0 {
        (t - 1) as u8
    } else {
        0
    }
}

/// Whether the timers are due to count down at time `now`, given the time
/// `last` at which they last did: one sixtieth of a second has passed. Both
/// times are in nanoseconds.
pub open spec fn timer_due(last: u128, now: u128) -> bool {
    now >= last && (now - last) * 60 >= 1_000_000_000
}

/// The state after the timers have had their turn at time `now`: where they
/// are due, each counts down by one, stopping at zero, and `now` is
/// remembered; otherwise nothing changes.
pub open spec fn run_timers(s: State, now: u128) -> State {
    if timer_due(s.last_cycle, now) {
        State { dt: count_down(s.dt), st: count_down(s.st), last_cycle: now, ..s }
    } else {
        s
    }
}

/// The state after the fetch: the program counter behind the instruction
/// word and the render flag down.
pub open spec fn fetched(s: State) -> State {
    State { pc: advance(s.pc), render_flag: false, ..s }
}

/// The effect of the instruction at the program counter, without the
/// timers: the state it leaves and the outcome it reports.
///
/// A word that cannot be fetched leaves the program counter where it is. A
/// word that is no instruction, and an instruction that fails, leave the
/// program counter behind the word and change nothing else.
pub open spec fn run_instruction(s: State, random: u8) -> (State, Result<(), Chip8Error>) {
    match fetch(s) {
        None => (State { render_flag: false, ..s }, Err(Chip8Error::OutOfRange { pc: s.pc })),
        Some(opcode) => {
            let s0 = fetched(s);
            match decode_spec(opcode) {
                None => (s0, Err(Chip8Error::UnsupportedOpcode { opcode, pc: s0.pc })),
                Some(instr) => match execute(s0, instr, random) {
                    Ok(s1) => (s1, Ok(())),
                    Err(e) => (s0, Err(e)),
                },
            }
        },
    }
}

/// One step of the machine at time `now`: the instruction at the program
/// counter, then the timers.
pub open spec fn step(s: State, now: u128, random: u8) -> (State, Result<(), Chip8Error>) {
    let (s1, outcome) = run_instruction(s, random);
    (run_timers(s1, now), outcome)
}

} // verus!
