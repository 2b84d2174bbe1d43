//! Laws of the machine, proved of the model that the interpreter computes.

use crate::alu::lemma_shift_bits;
use crate::display::{blit, collides, erased_at, sprite_lit};
use crate::error::Chip8Error;
use crate::instruction::{decode_spec, lemma_decode_wf, Instruction};
use crate::model::{
    advance, count_down, execute, fetch, fetched, first_held, first_held_from, rewind,
    run_instruction, run_timers, step, timer_due, State,
};
use vstd::prelude::*;

verus! {

/// A step keeps the state well formed: every component keeps its size and
/// the stack pointer stays within the stack.
pub proof fn law_step_preserves_wf(s: State, now: u128, random: u8)
    requires
        s.wf(),
    ensures
        step(s, now, random).0.wf(),
{
    lemma_run_instruction_frame(s, random);
}

/// The instruction part of a step keeps the state well formed and leaves
/// the time of the last countdown alone.
pub proof fn lemma_run_instruction_frame(s: State, random: u8)
    requires
        s.wf(),
    ensures
        run_instruction(s, random).0.wf(),
        run_instruction(s, random).0.last_cycle == s.last_cycle,
{
    if let Some(opcode) = fetch(s) {
        if let Some(instr) = decode_spec(opcode) {
            lemma_decode_wf(opcode);
            lemma_execute_frame(fetched(s), instr, random);
        }
    }
}

/// An instruction that succeeds keeps the state well formed and leaves the
/// time of the last countdown alone.
pub proof fn lemma_execute_frame(s: State, instr: Instruction, random: u8)
    requires
        s.wf(),
        instr.wf(),
    ensures
        execute(s, instr, random) matches Ok(s1) ==> s1.wf() && s1.last_cycle == s.last_cycle,
{
}

/// Adding registers: the flag becomes 1 exactly when the sum of the two
/// registers exceeds 255, and, unless the flag register itself is the
/// target, the target becomes the sum modulo 256. No other register
/// changes.
pub proof fn law_add_registers(s: State, x: u8, y: u8, random: u8)
    requires
        s.wf(),
        x < 16,
        y < 16,
    ensures
        execute(s, Instruction::Add { x, y }, random) matches Ok(s1) && {
            &&& s1.reg(0xF) == (if s.reg(x) + s.reg(y) > 255 { 1u8 } else { 0u8 })
            &&& x != 0xF ==> s1.reg(x) == (s.reg(x) + s.reg(y)) % 256
            &&& forall|k: int| 0 <= k < 16 && k != x && k != 0xF ==> s1.v[k] == s.v[k]
        },
{
}

/// Subtracting registers: the flag becomes 1 exactly when the target is at
/// least the other register, and, unless the flag register itself is the
/// target, the target becomes the difference modulo 256. No other register
/// changes.
pub proof fn law_sub_registers(s: State, x: u8, y: u8, random: u8)
    requires
        s.wf(),
        x < 16,
        y < 16,
    ensures
        execute(s, Instruction::Sub { x, y }, random) matches Ok(s1) && {
            &&& s1.reg(0xF) == (if s.reg(x) >= s.reg(y) { 1u8 } else { 0u8 })
            &&& x != 0xF ==> s1.reg(x) == (s.reg(x) - s.reg(y)) % 256
            &&& forall|k: int| 0 <= k < 16 && k != x && k != 0xF ==> s1.v[k] == s.v[k]
        },
{
}

/// Reverse subtraction: as subtraction, with the operands exchanged.
pub proof fn law_sub_reverse(s: State, x: u8, y: u8, random: u8)
    requires
        s.wf(),
        x < 16,
        y < 16,
    ensures
        execute(s, Instruction::SubReverse { x, y }, random) matches Ok(s1) && {
            &&& s1.reg(0xF) == (if s.reg(y) >= s.reg(x) { 1u8 } else { 0u8 })
            &&& x != 0xF ==> s1.reg(x) == (s.reg(y) - s.reg(x)) % 256
            &&& forall|k: int| 0 <= k < 16 && k != x && k != 0xF ==> s1.v[k] == s.v[k]
        },
{
}

/// Shifting right: the flag becomes the least significant bit of the
/// register as it was, and, unless the flag register itself is the target,
/// the register becomes its old value shifted right by one.
pub proof fn law_shift_right(s: State, x: u8, random: u8)
    requires
        s.wf(),
        x < 16,
    ensures
        execute(s, Instruction::ShiftRight { x }, random) matches Ok(s1) && {
            &&& s1.reg(0xF) == s.reg(x) & 1
            &&& x != 0xF ==> s1.reg(x) == s.reg(x) >> 1
            &&& forall|k: int| 0 <= k < 16 && k != x && k != 0xF ==> s1.v[k] == s.v[k]
        },
{
    lemma_shift_bits(s.reg(x));
}

/// Shifting left: the flag becomes the most significant bit of the register
/// as it was, and, unless the flag register itself is the target, the
/// register becomes its old value shifted left by one, modulo 256.
pub proof fn law_shift_left(s: State, x: u8, random: u8)
    requires
        s.wf(),
        x < 16,
    ensures
        execute(s, Instruction::ShiftLeft { x }, random) matches Ok(s1) && {
            &&& s1.reg(0xF) == (s.reg(x) >> 7) & 1
            &&& x != 0xF ==> s1.reg(x) == s.reg(x) << 1
            &&& x != 0xF ==> s1.reg(x) == (s.reg(x) * 2) % 256
            &&& forall|k: int| 0 <= k < 16 && k != x && k != 0xF ==> s1.v[k] == s.v[k]
        },
{
    lemma_shift_bits(s.reg(x));
}

/// Drawing the same sprite at the same place twice gives back the
/// framebuffer as it was.
pub proof fn law_blit_twice(pixels: Seq<bool>, sprite: Seq<u8>, ox: int, oy: int)
    ensures
        blit(blit(pixels, sprite, ox, oy), sprite, ox, oy) == pixels,
{
    assert(blit(blit(pixels, sprite, ox, oy), sprite, ox, oy) =~= pixels);
}

/// The second of two equal draws reports a collision exactly when the
/// sprite has a set bit over a pixel that was off before the first draw.
/// So it reports none exactly when every set bit of the sprite lay over a
/// pixel that was on.
pub proof fn law_blit_twice_collision(pixels: Seq<bool>, sprite: Seq<u8>, ox: int, oy: int)
    ensures
        collides(blit(pixels, sprite, ox, oy), sprite, ox, oy) <==> exists|k: int|
            0 <= k < pixels.len() && #[trigger] sprite_lit(sprite, ox, oy, k) && !pixels[k],
{
    let once = blit(pixels, sprite, ox, oy);
    if collides(once, sprite, ox, oy) {
        let k = choose|k: int| 0 <= k < once.len() && #[trigger] erased_at(once, sprite, ox, oy, k);
        assert(sprite_lit(sprite, ox, oy, k) && !pixels[k]);
    }
    if exists|k: int|
        0 <= k < pixels.len() && #[trigger] sprite_lit(sprite, ox, oy, k) && !pixels[k] {
        let k = choose|k: int|
            0 <= k < pixels.len() && #[trigger] sprite_lit(sprite, ox, oy, k) && !pixels[k];
        assert(erased_at(once, sprite, ox, oy, k));
    }
}

/// The draw instruction, executed twice in a row with position registers
/// other than the flag register, gives back the framebuffer as it was. The
/// two draws leave nothing changed but the flag register and the render
/// flag.
pub proof fn law_draw_twice(s: State, x: u8, y: u8, n: u8, random: u8)
    requires
        s.wf(),
        x < 0xF,
        y < 0xF,
        n < 16,
        s.i + n <= 4096,
    ensures
        execute(s, Instruction::Draw { x, y, n }, random) matches Ok(s1) && (execute(
            s1,
            Instruction::Draw { x, y, n },
            random,
        ) matches Ok(s2) && {
            &&& s2.display == s.display
            &&& s2 == State { v: s.v.update(0xF, s2.reg(0xF)), render_flag: true, ..s }
        }),
{
    let sprite = s.mem.subrange(s.i as int, s.i + n);
    law_blit_twice(s.display, sprite, s.reg(x) as int, s.reg(y) as int);
    let s1 = execute(s, Instruction::Draw { x, y, n }, random).unwrap();
    let s2 = execute(s1, Instruction::Draw { x, y, n }, random).unwrap();
    assert(s2.v =~= s.v.update(0xF, s2.reg(0xF)));
}

/// After the display has been cleared every pixel is off.
pub proof fn law_clear_display(s: State, random: u8, x: int, y: int)
    requires
        s.wf(),
        0 <= x < 64,
        0 <= y < 32,
    ensures
        execute(s, Instruction::ClearDisplay, random) matches Ok(s1) && !s1.pixel(x, y),
{
    assert(0 <= y * 64 + x < 2048);
}

/// A step that executes the word `00E0` leaves every pixel off.
pub proof fn law_clear_display_step(s: State, now: u128, random: u8, x: int, y: int)
    requires
        s.wf(),
        fetch(s) == Some(0x00E0u16),
        0 <= x < 64,
        0 <= y < 32,
    ensures
        step(s, now, random).1 is Ok,
        !step(s, now, random).0.pixel(x, y),
{
    assert(decode_spec(0x00E0u16) == Some(Instruction::ClearDisplay));
    law_clear_display(fetched(s), random, x, y);
}

/// A call followed at once by a return brings the program counter back to
/// where it stood behind the call instruction, and the stack pointer back
/// to where it was.
pub proof fn law_call_return(s: State, addr: u16, now1: u128, now2: u128, r1: u8, r2: u8)
    requires
        s.wf(),
        s.sp < 16,
        addr < 0x1000,
        fetch(s) == Some((0x2000 + addr) as u16),
        fetch(State { pc: addr, ..s }) == Some(0x00EEu16),
    ensures
        ({
            let (s1, o1) = step(s, now1, r1);
            let (s2, o2) = step(s1, now2, r2);
            &&& o1 is Ok
            &&& o2 is Ok
            &&& s1.pc == addr
            &&& s2.pc == advance(s.pc)
            &&& s2.pc == s.pc + 2
            &&& s2.sp == s.sp
        }),
{
    let word = (0x2000 + addr) as u16;
    assert(decode_spec(word) == Some(Instruction::Call { addr }));
    assert(decode_spec(0x00EEu16) == Some(Instruction::Return));
    let (s1, o1) = step(s, now1, r1);
    assert(s1.mem == s.mem);
    assert(s1.pc == addr);
    assert(fetch(s1) == Some(0x00EEu16));
}

/// Where `first_held_from` finds a key, it is held and no key between
/// `from` and it is; where it finds none, no key from `from` on is held.
pub proof fn lemma_first_held_from(keys: Seq<bool>, from: int)
    requires
        0 <= from <= keys.len(),
    ensures
        from <= first_held_from(keys, from) <= keys.len(),
        first_held_from(keys, from) < keys.len() ==> keys[first_held_from(keys, from)],
        forall|j: int| from <= j < first_held_from(keys, from) ==> !keys[j],
    decreases keys.len() - from,
{
    if from < keys.len() && !keys[from] {
        lemma_first_held_from(keys, from + 1);
    }
}

/// The effect of the key-wait instruction by itself.
proof fn lemma_execute_wait_key(s: State, x: u8, random: u8)
    ensures
        execute(s, Instruction::WaitKey { x }, random) == (match first_held(s.keys) {
            Some(key) => Ok::<State, Chip8Error>(s.with_reg(x, key)),
            None => Ok::<State, Chip8Error>(State { pc: rewind(s.pc), ..s }),
        }),
{
}

/// A step whose word decodes to `instr`, and on which `instr` succeeds,
/// ends in the state that `instr` leaves, with the timers run.
proof fn lemma_step_of(s: State, instr: Instruction, now: u128, random: u8)
    requires
        fetch(s) matches Some(opcode) && decode_spec(opcode) == Some(instr),
        execute(fetched(s), instr, random) is Ok,
    ensures
        step(s, now, random).1 is Ok,
        step(s, now, random).0 == run_timers(execute(fetched(s), instr, random).unwrap(), now),
{
}

/// Waiting for a key: with no key held the step leaves the program counter
/// where it was, so that the same instruction runs again; with a key held
/// the program counter moves on by two and the register receives the
/// lowest index of a held key.
pub proof fn law_wait_key(s: State, x: u8, now: u128, random: u8)
    requires
        s.wf(),
        x < 16,
        fetch(s) matches Some(opcode) && decode_spec(opcode) == Some(Instruction::WaitKey { x }),
    ensures
        step(s, now, random).1 is Ok,
        (forall|k: int| 0 <= k < 16 ==> !s.keys[k]) ==> step(s, now, random).0.pc == s.pc
            && step(s, now, random).0.v == s.v,
        forall|k: int|
            0 <= k < 16 && s.keys[k] && (forall|j: int| 0 <= j < k ==> !s.keys[j]) ==> step(
                s,
                now,
                random,
            ).0.pc == s.pc + 2 && step(s, now, random).0.reg(x) == k,
{
    let instr = Instruction::WaitKey { x };
    let s0 = fetched(s);
    let found = first_held_from(s.keys, 0);
    lemma_first_held_from(s.keys, 0);
    lemma_execute_wait_key(s0, x, random);
    lemma_step_of(s, instr, now, random);
    let after = step(s, now, random).0;
    assert(s.pc + 1 < 4096);
    assert(s0.pc == s.pc + 2);
    assert(rewind(s0.pc) == s.pc);
    if found < 16 {
        assert(first_held(s0.keys) == Some(found as u8));
        assert(after.pc == s0.pc);
        assert(after.v == s0.v.update(x as int, found as u8));
        assert forall|k: int|
            0 <= k < 16 && s.keys[k] && (forall|j: int| 0 <= j < k ==> !s.keys[j]) implies k
            == found by {
            if k < found {
                assert(!s.keys[k]);
            }
        }
    } else {
        assert(first_held(s0.keys) is None);
        assert(after.pc == s.pc);
        assert(after.v == s.v);
        assert forall|k: int| 0 <= k < 16 implies !s.keys[k] by {}
    }
}

/// The timers count down by exactly one when one sixtieth of a second has
/// passed since they last did, and stay at zero once there; otherwise they
/// do not move. This holds of every step, whatever the instruction did to
/// the timers before.
pub proof fn law_timers(s: State, now: u128, random: u8)
    requires
        s.wf(),
    ensures
        ({
            let ran = run_instruction(s, random).0;
            let after = step(s, now, random).0;
            let due = now >= s.last_cycle && (now - s.last_cycle) * 60 >= 1_000_000_000;
            &&& due ==> after.dt == (if ran.dt == 0 { 0int } else { ran.dt - 1 })
            &&& due ==> after.st == (if ran.st == 0 { 0int } else { ran.st - 1 })
            &&& due ==> after.last_cycle == now
            &&& !due ==> after == ran
        }),
{
    lemma_run_instruction_frame(s, random);
}

/// The state after a run of steps, one for each entry of `times`, the
/// `k`-th at time `times[k]` and with random byte `randoms[k]`.
pub open spec fn run(s: State, times: Seq<u128>, randoms: Seq<u8>) -> State
    decreases times.len(),
{
    if times.len() == 0 {
        s
    } else {
        step(run(s, times.drop_last(), randoms.drop_last()), times.last(), randoms.last()).0
    }
}

/// The state after the same run with the timers standing still.
pub open spec fn run_untimed(s: State, randoms: Seq<u8>) -> State
    decreases randoms.len(),
{
    if randoms.len() == 0 {
        s
    } else {
        run_instruction(run_untimed(s, randoms.drop_last()), randoms.last()).0
    }
}

/// However many steps are taken before one sixtieth of a second has passed
/// since the timers last counted down, the timers do not count down in any
/// of them: the run ends where it would end without timers.
pub proof fn law_timers_ignore_step_count(s: State, times: Seq<u128>, randoms: Seq<u8>)
    requires
        s.wf(),
        times.len() == randoms.len(),
        forall|k: int| 0 <= k < times.len() ==> !timer_due(s.last_cycle, times[k]),
    ensures
        run(s, times, randoms) == run_untimed(s, randoms),
        run(s, times, randoms).wf(),
        run(s, times, randoms).last_cycle == s.last_cycle,
    decreases times.len(),
{
    if times.len() > 0 {
        law_timers_ignore_step_count(s, times.drop_last(), randoms.drop_last());
        lemma_run_instruction_frame(run(s, times.drop_last(), randoms.drop_last()), randoms.last());
    }
}

/// When, after any number of such steps, a step comes at which one
/// sixtieth of a second has passed, the timers count down by exactly one in
/// it: the run ends where it would end without timers, but for each timer
/// being one less, or zero still, and the time being remembered.
pub proof fn law_timers_one_per_period(
    s: State,
    times: Seq<u128>,
    randoms: Seq<u8>,
    now: u128,
    random: u8,
)
    requires
        s.wf(),
        times.len() == randoms.len(),
        forall|k: int| 0 <= k < times.len() ==> !timer_due(s.last_cycle, times[k]),
        timer_due(s.last_cycle, now),
    ensures
        ({
            let timed = run(s, times.push(now), randoms.push(random));
            let untimed = run_untimed(s, randoms.push(random));
            timed == State {
                dt: count_down(untimed.dt),
                st: count_down(untimed.st),
                last_cycle: now,
                ..untimed
            }
        }),
{
    law_timers_ignore_step_count(s, times, randoms);
    assert(times.push(now).drop_last() =~= times);
    assert(randoms.push(random).drop_last() =~= randoms);
    lemma_run_instruction_frame(run_untimed(s, randoms), random);
}

/// A word that is no instruction is reported, with the program counter
/// behind it, and the step changes nothing else but what the timers do.
pub proof fn law_unsupported_opcode(s: State, now: u128, random: u8)
    requires
        s.wf(),
        fetch(s) matches Some(opcode) && decode_spec(opcode) is None,
    ensures
        step(s, now, random).1 == Err::<(), Chip8Error>(
            Chip8Error::UnsupportedOpcode { opcode: fetch(s).unwrap(), pc: (s.pc + 2) as u16 },
        ),
        step(s, now, random).0 == run_timers(
            State { pc: (s.pc + 2) as u16, render_flag: false, ..s },
            now,
        ),
{
}

/// A step that reports an error leaves everything as it was, but for the
/// program counter, which stands behind the word if one was fetched, the
/// render flag, which is down, and what the timers do.
pub proof fn law_failed_step(s: State, now: u128, random: u8)
    requires
        s.wf(),
        step(s, now, random).1 is Err,
    ensures
        ({
            let pc = if fetch(s) is Some {
                (s.pc + 2) as u16
            } else {
                s.pc
            };
            step(s, now, random).0 == run_timers(State { pc, render_flag: false, ..s }, now)
        }),
{
}

} // verus!
