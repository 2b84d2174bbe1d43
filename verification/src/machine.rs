//! The executable interpreter.

use crate::alu::{add_registers, decimal_digits, shift_left, shift_right, sub_registers};
use crate::display::{clear, draw_sprite, DISPLAY_HEIGHT, DISPLAY_SIZE, DISPLAY_WIDTH};
use crate::error::Chip8Error;
use crate::host::{nanos_since, random_byte};
use crate::instruction::{decode, prefix_of, Instruction};
use crate::model::{
    count_down, execute, fetch, fetched, first_held, first_held_from, initial, is_outcome,
    load_regs, run_instruction, run_timers, step, store_regs, timer_due, State, FONT,
    MAX_PROGRAM_SIZE, MEMORY_SIZE, PROGRAM_START,
};
use vstd::prelude::*;

verus! {

/// The shortest time, in nanoseconds, that is at least one sixtieth of a
/// second.
pub const TIMER_PERIOD_NANOS: u128 = 16_666_667;

/// A CHIP-8 machine: memory, registers, stack, timers, keypad and display.
pub struct Chip8 {
    /// 4 KiB of memory: the font from address 0, the program from 0x200.
    mem: [u8; MEMORY_SIZE],
    /// The registers `V0` to `VF`.
    v: [u8; 16],
    /// The delay timer.
    dt: u8,
    /// The sound timer; the buzzer sounds while it is not zero.
    st: u8,
    /// The number of return addresses on the stack.
    sp: u8,
    /// The return addresses of the subroutines that are being executed.
    stack: [u16; 16],
    /// The address register.
    i: u16,
    /// The address of the next instruction.
    pc: u16,
    /// Which keys of the hexadecimal keypad are held.
    input: [bool; 16],
    /// The pixels of the display, row by row.
    display: [bool; DISPLAY_SIZE],
    /// Whether the last step drew a sprite.
    render_flag: bool,
    /// When the timers last counted down, in nanoseconds since `epoch`.
    last_cycle: u128,
    /// The moment of construction, from which `tick` measures time.
    epoch: std::time::Instant,
}

/// Stores `v[0..=x]` into `mem` from address `base` on.
fn store_registers(mem: &mut [u8; MEMORY_SIZE], v: &[u8; 16], base: usize, x: u8)
    requires
        x < 16,
        base + x < MEMORY_SIZE,
    ensures
        final(mem)@ == store_regs(old(mem)@, v@, base as int, x as int),
    no_unwind
{
    let ghost before = mem@;
    let mut k: usize = 0;
    while k <= x as usize
        invariant
            k <= x + 1,
            x < 16,
            base + x < MEMORY_SIZE,
            forall|a: int|
                0 <= a < MEMORY_SIZE ==> mem@[a] == if base <= a < base + k {
                    v@[a - base]
                } else {
                    before[a]
                },
        decreases x + 1 - k,
    {
        mem[base + k] = v[k];
        k += 1;
    }
    assert(mem@ =~= store_regs(before, v@, base as int, x as int));
}

/// Loads `v[0..=x]` from `mem` from address `base` on.
fn load_registers(v: &mut [u8; 16], mem: &[u8; MEMORY_SIZE], base: usize, x: u8)
    requires
        x < 16,
        base + x < MEMORY_SIZE,
    ensures
        final(v)@ == load_regs(mem@, old(v)@, base as int, x as int),
    no_unwind
{
    let ghost before = v@;
    let mut k: usize = 0;
    while k <= x as usize
        invariant
            k <= x + 1,
            x < 16,
            base + x < MEMORY_SIZE,
            forall|j: int|
                0 <= j < 16 ==> v@[j] == if j < k {
                    mem@[base + j]
                } else {
                    before[j]
                },
        decreases x + 1 - k,
    {
        v[k] = mem[base + k];
        k += 1;
    }
    assert(v@ =~= load_regs(mem@, before, base as int, x as int));
}

/// Scans the keypad from key 0 upwards for a key that is held.
fn first_held_key(keys: &[bool; 16]) -> (r: Option<u8>)
    ensures
        r == first_held(keys@),
{
    let mut k: usize = 0;
    while k < 16
        invariant
            k <= 16,
            first_held_from(keys@, 0) == first_held_from(keys@, k as int),
        decreases 16 - k,
    {
        if keys[k] {
            return Some(k as u8);
        }
        k += 1;
    }
    None
}

/// Whether one sixtieth of a second has passed between `last` and `now`.
fn timers_due(last: u128, now: u128) -> (due: bool)
    ensures
        due == timer_due(last, now),
{
    now >= last && now - last >= TIMER_PERIOD_NANOS
}

/// A timer's next value when it counts down.
fn counted_down(t: u8) -> (r: u8)
    ensures
        r == count_down(t),
{
    if t > 0 {
        t - 1
    } else {
        0
    }
}

/// The instructions that move the program counter or wait for a key.
spec fn is_control(instr: Instruction) -> bool {
    match instr {
        Instruction::Return
        | Instruction::Jump { .. }
        | Instruction::Call { .. }
        | Instruction::SkipEqImm { .. }
        | Instruction::SkipNeImm { .. }
        | Instruction::SkipEqReg { .. }
        | Instruction::SkipNeReg { .. }
        | Instruction::JumpOffset { .. }
        | Instruction::SkipKey { .. }
        | Instruction::SkipNotKey { .. }
        | Instruction::WaitKey { .. } => true,
        _ => false,
    }
}

/// The instructions that compute a register and touch nothing else.
spec fn is_register(instr: Instruction) -> bool {
    match instr {
        Instruction::LoadImm { .. }
        | Instruction::AddImm { .. }
        | Instruction::Move { .. }
        | Instruction::Or { .. }
        | Instruction::And { .. }
        | Instruction::Xor { .. }
        | Instruction::Add { .. }
        | Instruction::Sub { .. }
        | Instruction::SubReverse { .. }
        | Instruction::ShiftRight { .. }
        | Instruction::ShiftLeft { .. }
        | Instruction::Random { .. }
        | Instruction::LoadDelay { .. } => true,
        _ => false,
    }
}

fn moves_program_counter(instr: &Instruction) -> (b: bool)
    ensures
        b == is_control(*instr),
{
    match instr {
        Instruction::Return
        | Instruction::Jump { .. }
        | Instruction::Call { .. }
        | Instruction::SkipEqImm { .. }
        | Instruction::SkipNeImm { .. }
        | Instruction::SkipEqReg { .. }
        | Instruction::SkipNeReg { .. }
        | Instruction::JumpOffset { .. }
        | Instruction::SkipKey { .. }
        | Instruction::SkipNotKey { .. }
        | Instruction::WaitKey { .. } => true,
        _ => false,
    }
}

fn computes_register(instr: &Instruction) -> (b: bool)
    ensures
        b == is_register(*instr),
{
    match instr {
        Instruction::LoadImm { .. }
        | Instruction::AddImm { .. }
        | Instruction::Move { .. }
        | Instruction::Or { .. }
        | Instruction::And { .. }
        | Instruction::Xor { .. }
        | Instruction::Add { .. }
        | Instruction::Sub { .. }
        | Instruction::SubReverse { .. }
        | Instruction::ShiftRight { .. }
        | Instruction::ShiftLeft { .. }
        | Instruction::Random { .. }
        | Instruction::LoadDelay { .. } => true,
        _ => false,
    }
}

impl Chip8 {
    #[verifier::type_invariant]
    spec fn stack_pointer_in_range(&self) -> bool {
        self.sp <= 16
    }

    /// The machine's state as a mathematical value.
    pub closed spec fn view(&self) -> State {
        State {
            mem: self.mem@,
            v: self.v@,
            i: self.i,
            pc: self.pc,
            sp: self.sp,
            stack: self.stack@,
            dt: self.dt,
            st: self.st,
            keys: self.input@,
            display: self.display@,
            render_flag: self.render_flag,
            last_cycle: self.last_cycle,
        }
    }

    /// Creates a machine and loads `rom_data` at address 0x200. Fails with
    /// `LoadError` exactly when the program is longer than 0xE00 bytes.
    pub fn with_rom_data(rom_data: &[u8]) -> (r: Result<Chip8, Chip8Error>)
        ensures
            match r {
                Ok(chip) => {
                    &&& rom_data@.len() <= MAX_PROGRAM_SIZE
                    &&& chip@ == initial(rom_data@)
                    &&& chip@.wf()
                },
                Err(fault) => rom_data@.len() > MAX_PROGRAM_SIZE && fault == Chip8Error::LoadError,
            },
    {
        if rom_data.len() > MAX_PROGRAM_SIZE {
            return Err(Chip8Error::LoadError);
        }
        let mut ram: [u8; MEMORY_SIZE] = [0u8; MEMORY_SIZE];
        let mut k: usize = 0;
        while k < rom_data.len()
            invariant
                k <= rom_data@.len() <= MAX_PROGRAM_SIZE,
                forall|a: int|
                    0 <= a < MEMORY_SIZE ==> ram@[a] == if PROGRAM_START <= a < PROGRAM_START + k {
                        rom_data@[a - PROGRAM_START]
                    } else {
                        0u8
                    },
            decreases rom_data@.len() - k,
        {
            ram[k + PROGRAM_START] = rom_data[k];
            k += 1;
        }
        let mut j: usize = 0;
        while j < 80
            invariant
                j <= 80,
                rom_data@.len() <= MAX_PROGRAM_SIZE,
                forall|a: int|
                    0 <= a < MEMORY_SIZE ==> ram@[a] == if a < j {
                        FONT@[a]
                    } else if PROGRAM_START <= a < PROGRAM_START + rom_data@.len() {
                        rom_data@[a - PROGRAM_START]
                    } else {
                        0u8
                    },
            decreases 80 - j,
        {
            ram[j] = FONT[j];
            j += 1;
        }
        let chip = Chip8 {
            mem: ram,
            v: [0u8; 16],
            dt: 0,
            st: 0,
            sp: 0,
            stack: [0u16; 16],
            i: 0,
            pc: 0x200,
            input: [false; 16],
            display: [false; DISPLAY_SIZE],
            render_flag: false,
            last_cycle: 0,
            epoch: std::time::Instant::now(),
        };
        proof {
            let s = initial(rom_data@);
            assert(chip@.mem =~= s.mem);
            assert(chip@.v =~= s.v);
            assert(chip@.stack =~= s.stack);
            assert(chip@.keys =~= s.keys);
            assert(chip@.display =~= s.display);
        }
        Ok(chip)
    }

    /// Whether the last step drew a sprite, so that the display is worth
    /// presenting again.
    pub fn get_render_flag(&self) -> (flag: bool)
        ensures
            flag == self@.render_flag,
    {
        self.render_flag
    }

    /// The value of register `register`.
    pub fn get_v(&self, register: usize) -> (value: u8)
        requires
            register < 16,
        ensures
            value == self@.v[register as int],
    {
        self.v[register]
    }

    /// The value of the sound timer.
    pub fn get_st(&self) -> (value: u8)
        ensures
            value == self@.st,
    {
        self.st
    }

    /// The value of the delay timer.
    pub fn get_dt(&self) -> (value: u8)
        ensures
            value == self@.dt,
    {
        self.dt
    }

    /// Whether the pixel at column `x`, row `y` is on.
    pub fn get_pixel(&self, x: usize, y: usize) -> (on: bool)
        requires
            x < DISPLAY_WIDTH,
            y < DISPLAY_HEIGHT,
        ensures
            on == self@.pixel(x as int, y as int),
    {
        self.display[y * DISPLAY_WIDTH + x]
    }

    /// Whether key `key` of the keypad is held.
    pub fn get_input(&self, key: usize) -> (held: bool)
        requires
            key < 16,
        ensures
            held == self@.keys[key as int],
    {
        self.input[key]
    }

    /// Records that key `key` of the keypad is held, or is not. Nothing
    /// else changes.
    pub fn set_input(&mut self, key: usize, value: bool)
        requires
            key < 16,
        ensures
            final(self)@ == (State {
                keys: old(self)@.keys.update(key as int, value),
                ..old(self)@
            }),
            final(self)@.wf(),
    {
        proof {
            use_type_invariant(&*self);
        }
        self.input[key] = value;
    }

    /// Whether the buzzer should sound: the sound timer is not zero.
    pub fn sound_status(&self) -> (active: bool)
        ensures
            active == self@.sound_active(),
    {
        self.st > 0
    }

    /// The address register `I`.
    pub fn get_i(&self) -> (value: u16)
        ensures
            value == self@.i,
    {
        self.i
    }

    /// The program counter.
    pub fn get_pc(&self) -> (value: u16)
        ensures
            value == self@.pc,
    {
        self.pc
    }

    /// The number of return addresses on the stack, at most 16.
    pub fn get_sp(&self) -> (value: u8)
        ensures
            value == self@.sp,
            value <= 16,
    {
        proof {
            use_type_invariant(self);
        }
        self.sp
    }

    /// The content of stack slot `slot`.
    pub fn get_stack(&self, slot: usize) -> (value: u16)
        requires
            slot < 16,
        ensures
            value == self@.stack[slot as int],
    {
        self.stack[slot]
    }

    /// The content of the memory cell at `address`.
    pub fn get_mem(&self, address: usize) -> (value: u8)
        requires
            address < MEMORY_SIZE,
        ensures
            value == self@.mem[address as int],
    {
        self.mem[address]
    }

    /// Sets register `x`.
    fn set_reg(&mut self, x: u8, value: u8)
        requires
            x < 16,
        ensures
            final(self)@ == old(self)@.with_reg(x, value),
    {
        proof {
            use_type_invariant(&*self);
        }
        self.v[x as usize] = value;
    }

    /// Sets register `x`, then the flag register.
    fn set_reg_and_flag(&mut self, x: u8, value: u8, flag: u8)
        requires
            x < 16,
        ensures
            final(self)@ == old(self)@.with_reg(x, value).with_reg(0xF, flag),
    {
        proof {
            use_type_invariant(&*self);
        }
        self.v[x as usize] = value;
        self.v[0xF] = flag;
    }

    /// Moves the program counter past one more instruction where `cond`
    /// holds.
    fn skip_if(&mut self, cond: bool)
        ensures
            final(self)@ == old(self)@.skip_if(cond),
    {
        proof {
            use_type_invariant(&*self);
        }
        if cond {
            self.pc = self.pc.wrapping_add(2);
        }
    }

    /// Returns from a subroutine.
    fn op_return(&mut self) -> (r: Result<(), Chip8Error>)
        ensures
            is_outcome(execute(old(self)@, Instruction::Return, 0), old(self)@, final(self)@, r),
    {
        proof {
            use_type_invariant(&*self);
        }
        if self.sp == 0 {
            return Err(Chip8Error::StackUnderflow);
        }
        self.sp = self.sp - 1;
        self.pc = self.stack[self.sp as usize];
        Ok(())
    }

    /// Calls the subroutine at `addr`.
    fn op_call(&mut self, addr: u16) -> (r: Result<(), Chip8Error>)
        ensures
            is_outcome(
                execute(old(self)@, Instruction::Call { addr }, 0),
                old(self)@,
                final(self)@,
                r,
            ),
    {
        proof {
            use_type_invariant(&*self);
        }
        if self.sp >= 16 {
            return Err(Chip8Error::StackOverflow);
        }
        self.stack[self.sp as usize] = self.pc;
        self.sp = self.sp + 1;
        self.pc = addr;
        Ok(())
    }

    /// Draws the sprite of `n` rows at `I` at position `(Vx, Vy)`.
    fn op_draw(&mut self, x: u8, y: u8, n: u8) -> (r: Result<(), Chip8Error>)
        requires
            x < 16,
            y < 16,
            n < 16,
        ensures
            is_outcome(
                execute(old(self)@, Instruction::Draw { x, y, n }, 0),
                old(self)@,
                final(self)@,
                r,
            ),
    {
        proof {
            use_type_invariant(&*self);
        }
        let base: usize = self.i as usize;
        let rows: usize = n as usize;
        if base + rows > MEMORY_SIZE {
            return Err(Chip8Error::OutOfRange { pc: self.pc });
        }
        let ox: u8 = self.v[x as usize];
        let oy: u8 = self.v[y as usize];
        let hit = draw_sprite(&mut self.display, &self.mem, base, rows, ox, oy);
        self.render_flag = true;
        self.v[0xF] = if hit {
            1
        } else {
            0
        };
        Ok(())
    }

    /// Skips the next instruction if key `Vx` is held (`held` is true) or
    /// is not held (`held` is false).
    fn op_skip_key(&mut self, x: u8, held: bool) -> (r: Result<(), Chip8Error>)
        requires
            x < 16,
        ensures
            is_outcome(
                execute(
                    old(self)@,
                    if held {
                        Instruction::SkipKey { x }
                    } else {
                        Instruction::SkipNotKey { x }
                    },
                    0,
                ),
                old(self)@,
                final(self)@,
                r,
            ),
    {
        proof {
            use_type_invariant(&*self);
        }
        let key: usize = self.v[x as usize] as usize;
        if key >= 16 {
            return Err(Chip8Error::OutOfRange { pc: self.pc });
        }
        self.skip_if(self.input[key] == held);
        Ok(())
    }

    /// Stores the lowest held key in `Vx`, or moves the program counter
    /// back onto this instruction where no key is held.
    fn op_wait_key(&mut self, x: u8)
        requires
            x < 16,
        ensures
            Ok::<State, Chip8Error>(final(self)@) == execute(
                old(self)@,
                Instruction::WaitKey { x },
                0,
            ),
    {
        proof {
            use_type_invariant(&*self);
        }
        match first_held_key(&self.input) {
            Some(key) => {
                self.v[x as usize] = key;
            },
            None => {
                self.pc = self.pc.wrapping_sub(2);
            },
        }
    }

    /// Stores the decimal digits of `Vx` at `I`, `I + 1` and `I + 2`.
    fn op_store_bcd(&mut self, x: u8) -> (r: Result<(), Chip8Error>)
        requires
            x < 16,
        ensures
            is_outcome(
                execute(old(self)@, Instruction::StoreBcd { x }, 0),
                old(self)@,
                final(self)@,
                r,
            ),
    {
        proof {
            use_type_invariant(&*self);
        }
        let base: usize = self.i as usize;
        if base + 2 >= MEMORY_SIZE {
            return Err(Chip8Error::OutOfRange { pc: self.pc });
        }
        let (hundreds, tens, ones) = decimal_digits(self.v[x as usize]);
        self.mem[base] = hundreds;
        self.mem[base + 1] = tens;
        self.mem[base + 2] = ones;
        Ok(())
    }

    /// Stores `V0..=Vx` at `I..=I + x`.
    fn op_store_regs(&mut self, x: u8) -> (r: Result<(), Chip8Error>)
        requires
            x < 16,
        ensures
            is_outcome(
                execute(old(self)@, Instruction::StoreRegs { x }, 0),
                old(self)@,
                final(self)@,
                r,
            ),
    {
        proof {
            use_type_invariant(&*self);
        }
        let base: usize = self.i as usize;
        if base + x as usize >= MEMORY_SIZE {
            return Err(Chip8Error::OutOfRange { pc: self.pc });
        }
        store_registers(&mut self.mem, &self.v, base, x);
        Ok(())
    }

    /// Loads `V0..=Vx` from `I..=I + x`.
    fn op_load_regs(&mut self, x: u8) -> (r: Result<(), Chip8Error>)
        requires
            x < 16,
        ensures
            is_outcome(
                execute(old(self)@, Instruction::LoadRegs { x }, 0),
                old(self)@,
                final(self)@,
                r,
            ),
    {
        proof {
            use_type_invariant(&*self);
        }
        let base: usize = self.i as usize;
        if base + x as usize >= MEMORY_SIZE {
            return Err(Chip8Error::OutOfRange { pc: self.pc });
        }
        load_registers(&mut self.v, &self.mem, base, x);
        Ok(())
    }

    /// Carries out an instruction that moves the program counter or waits
    /// for a key.
    fn execute_control(&mut self, instr: Instruction) -> (r: Result<(), Chip8Error>)
        requires
            instr.wf(),
            is_control(instr),
        ensures
            is_outcome(execute(old(self)@, instr, 0), old(self)@, final(self)@, r),
    {
        proof {
            use_type_invariant(&*self);
        }
        match instr {
            Instruction::Return => self.op_return(),
            Instruction::Jump { addr } => {
                self.pc = addr;
                Ok(())
            },
            Instruction::Call { addr } => self.op_call(addr),
            Instruction::SkipEqImm { x, nn } => {
                self.skip_if(self.v[x as usize] == nn);
                Ok(())
            },
            Instruction::SkipNeImm { x, nn } => {
                self.skip_if(self.v[x as usize] != nn);
                Ok(())
            },
            Instruction::SkipEqReg { x, y } => {
                self.skip_if(self.v[x as usize] == self.v[y as usize]);
                Ok(())
            },
            Instruction::SkipNeReg { x, y } => {
                self.skip_if(self.v[x as usize] != self.v[y as usize]);
                Ok(())
            },
            Instruction::JumpOffset { addr } => {
                self.pc = addr.wrapping_add(self.v[0] as u16);
                Ok(())
            },
            Instruction::SkipKey { x } => self.op_skip_key(x, true),
            Instruction::SkipNotKey { x } => self.op_skip_key(x, false),
            Instruction::WaitKey { x } => {
                self.op_wait_key(x);
                Ok(())
            },
            _ => Ok(()),
        }
    }

    /// Carries out an instruction that computes a register.
    fn execute_register(&mut self, instr: Instruction, random: u8)
        requires
            instr.wf(),
            is_register(instr),
        ensures
            Ok::<State, Chip8Error>(final(self)@) == execute(old(self)@, instr, random),
    {
        proof {
            use_type_invariant(&*self);
        }
        match instr {
            Instruction::LoadImm { x, nn } => {
                self.set_reg(x, nn);
            },
            Instruction::AddImm { x, nn } => {
                self.set_reg(x, self.v[x as usize].wrapping_add(nn));
            },
            Instruction::Move { x, y } => {
                self.set_reg(x, self.v[y as usize]);
            },
            Instruction::Or { x, y } => {
                self.set_reg(x, self.v[x as usize] | self.v[y as usize]);
            },
            Instruction::And { x, y } => {
                self.set_reg(x, self.v[x as usize] & self.v[y as usize]);
            },
            Instruction::Xor { x, y } => {
                self.set_reg(x, self.v[x as usize] ^ self.v[y as usize]);
            },
            Instruction::Add { x, y } => {
                let (sum, carry) = add_registers(self.v[x as usize], self.v[y as usize]);
                self.set_reg_and_flag(x, sum, carry);
            },
            Instruction::Sub { x, y } => {
                let (diff, no_borrow) = sub_registers(self.v[x as usize], self.v[y as usize]);
                self.set_reg_and_flag(x, diff, no_borrow);
            },
            Instruction::SubReverse { x, y } => {
                let (diff, no_borrow) = sub_registers(self.v[y as usize], self.v[x as usize]);
                self.set_reg_and_flag(x, diff, no_borrow);
            },
            Instruction::ShiftRight { x } => {
                let (shifted, out) = shift_right(self.v[x as usize]);
                self.set_reg_and_flag(x, shifted, out);
            },
            Instruction::ShiftLeft { x } => {
                let (shifted, out) = shift_left(self.v[x as usize]);
                self.set_reg_and_flag(x, shifted, out);
            },
            Instruction::Random { x, nn } => {
                self.set_reg(x, nn & random);
            },
            Instruction::LoadDelay { x } => {
                self.set_reg(x, self.dt);
            },
            _ => {},
        }
    }

    /// Carries out an instruction that works on memory, the address
    /// register, the display or the timers.
    fn execute_memory(&mut self, instr: Instruction) -> (r: Result<(), Chip8Error>)
        requires
            instr.wf(),
            !is_control(instr),
            !is_register(instr),
        ensures
            is_outcome(execute(old(self)@, instr, 0), old(self)@, final(self)@, r),
    {
        proof {
            use_type_invariant(&*self);
        }
        match instr {
            Instruction::ClearDisplay => {
                clear(&mut self.display);
                Ok(())
            },
            Instruction::LoadIndex { addr } => {
                self.i = addr;
                Ok(())
            },
            Instruction::Draw { x, y, n } => self.op_draw(x, y, n),
            Instruction::SetDelay { x } => {
                self.dt = self.v[x as usize];
                Ok(())
            },
            Instruction::SetSound { x } => {
                self.st = self.v[x as usize];
                Ok(())
            },
            Instruction::AddIndex { x } => {
                self.i = self.i.wrapping_add(self.v[x as usize] as u16);
                Ok(())
            },
            Instruction::FontAddr { x } => {
                self.i = 5 * (self.v[x as usize] as u16);
                Ok(())
            },
            Instruction::StoreBcd { x } => self.op_store_bcd(x),
            Instruction::StoreRegs { x } => self.op_store_regs(x),
            Instruction::LoadRegs { x } => self.op_load_regs(x),
            _ => Ok(()),
        }
    }

    /// Carries out one decoded instruction. The program counter already
    /// stands behind it.
    fn execute(&mut self, instr: Instruction, random: u8) -> (r: Result<(), Chip8Error>)
        requires
            instr.wf(),
        ensures
            is_outcome(execute(old(self)@, instr, random), old(self)@, final(self)@, r),
    {
        if moves_program_counter(&instr) {
            self.execute_control(instr)
        } else if computes_register(&instr) {
            self.execute_register(instr, random);
            Ok(())
        } else {
            self.execute_memory(instr)
        }
    }

    /// Fetches the instruction at the program counter and carries it out.
    fn run_instruction(&mut self, random: u8) -> (r: Result<(), Chip8Error>)
        ensures
            (final(self)@, r) == run_instruction(old(self)@, random),
            final(self)@.wf(),
    {
        proof {
            use_type_invariant(&*self);
        }
        self.render_flag = false;
        let at: usize = self.pc as usize;
        if at + 1 >= MEMORY_SIZE {
            return Err(Chip8Error::OutOfRange { pc: self.pc });
        }
        let opcode: u16 = (self.mem[at] as u16) * 256 + (self.mem[at + 1] as u16);
        self.pc = self.pc + 2;
        assert(fetch(old(self)@) == Some(opcode));
        assert(self@ == fetched(old(self)@));
        match decode(opcode) {
            None => Err(Chip8Error::UnsupportedOpcode { opcode, pc: self.pc }),
            Some(instr) => {
                let r = self.execute(instr, random);
                proof {
                    use_type_invariant(&*self);
                }
                r
            },
        }
    }

    /// Lets the timers count down if they are due at time `now`.
    fn update_timers(&mut self, now: u128)
        ensures
            final(self)@ == run_timers(old(self)@, now),
    {
        proof {
            use_type_invariant(&*self);
        }
        if timers_due(self.last_cycle, now) {
            self.last_cycle = now;
            self.dt = counted_down(self.dt);
            self.st = counted_down(self.st);
        }
    }

    /// Performs one step at time `now`, a number of nanoseconds on a clock
    /// of the caller's choosing: carries out the instruction at the program
    /// counter, with `random` as the byte that a random instruction draws,
    /// then lets the timers count down if one sixtieth of a second has
    /// passed since they last did.
    pub fn tick_at(&mut self, now: u128, random: u8) -> (r: Result<(), Chip8Error>)
        ensures
            (final(self)@, r) == step(old(self)@, now, random),
            final(self)@.wf(),
    {
        let r = self.run_instruction(random);
        self.update_timers(now);
        proof {
            use_type_invariant(&*self);
        }
        r
    }

    /// Whether the instruction at the program counter draws a random byte.
    fn next_is_random(&self) -> (b: bool)
        ensures
            b == (fetch(self@) matches Some(opcode) && prefix_of(opcode) == 0xC),
    {
        let at: usize = self.pc as usize;
        if at + 1 >= MEMORY_SIZE {
            return false;
        }
        self.mem[at] / 16 == 0xC
    }

    /// Performs one step: carries out the instruction at the program
    /// counter, then lets the timers count down if one sixtieth of a second
    /// has passed on the host's clock since they last did.
    ///
    /// The step is `tick_at` with the time read from the host's clock and,
    /// for a random instruction, a byte from the host's random number
    /// generator.
    pub fn tick(&mut self) -> (r: Result<(), Chip8Error>)
        ensures
            exists|now: u128, random: u8|
                (final(self)@, r) == #[trigger] step(old(self)@, now, random),
            final(self)@.wf(),
    {
        let now: u128 = nanos_since(&self.epoch);
        let random: u8 = if self.next_is_random() {
            random_byte()
        } else {
            0
        };
        self.tick_at(now, random)
    }
}

} // verus!
