//! What one cycle of a running machine does, instruction by instruction,
//! stated as relations between the state before and the state after.

use vstd::prelude::*;
use crate::opcode::{op_class, op_x, op_y, op_n, op_nn, op_nnn};
use crate::memory::{MEMORY_SIZE, PROGRAM_START, word_at, loaded_len};
use crate::display::SCREEN_SIZE;
use crate::font::{font, glyph, FONT_SIZE};
use crate::sprite::{lemma_draw_xor, sprite_mask, collides};
use crate::machine::{Chip8View, Beep, cycle_result, cycle_ok, initial_state};

verus! {

/// A machine that runs its next instruction: well-formed, able to cycle, and
/// not waiting for a key.
pub open spec fn running(s: Chip8View) -> bool {
    s.wf() && cycle_ok(s) && !s.key_wait
}

/// The instruction at the program counter.
pub open spec fn next_op(s: Chip8View) -> u16 {
    word_at(s.memory, s.pc as int)
}

/// Arithmetic and logic (8XYN, X not VF): VY copied, or, and, xor; the sum
/// and its carry make VX + VY; the difference plus the subtrahend gives back
/// the minuend, with VF telling whether no borrow was needed; the shifts of
/// VY with the bit shifted out in VF. The other registers stay.
pub proof fn lemma_cycle_alu(s: Chip8View, keypad: Seq<bool>, random: u8)
    requires
        running(s),
        op_class(next_op(s)) == 8,
        op_x(next_op(s)) != 15,
    ensures
        ({
            let o = next_op(s);
            let x = op_x(o);
            let n = op_n(o);
            let vx = s.registers[x];
            let vy = s.registers[op_y(o)];
            let t = cycle_result(s, keypad, random).0;
            &&& n == 0 ==> t.registers[x] == vy
            &&& n == 1 ==> t.registers[x] == vx | vy
            &&& n == 2 ==> t.registers[x] == vx & vy
            &&& n == 3 ==> t.registers[x] == vx ^ vy
            &&& n == 4 ==> t.registers[x] + 256 * t.registers[15] == vx + vy
            &&& n == 5 ==> (t.registers[x] + vy) % 256 == vx && t.registers[15] <= 1 && (
            t.registers[15] == 1) == (vx > vy)
            &&& n == 6 ==> 2 * t.registers[x] + t.registers[15] == vy
            &&& n == 7 ==> (t.registers[x] + vx) % 256 == vy && t.registers[15] <= 1 && (
            t.registers[15] == 1) == (vy >= vx)
            &&& n == 0xE ==> t.registers[x] + 256 * t.registers[15] == 2 * vy
            &&& n < 4 ==> t.registers[15] == s.registers[15]
            &&& forall|k: int|
                0 <= k < 16 && k != x && k != 15 ==> #[trigger] t.registers[k] == s.registers[k]
            &&& t.pc == s.pc + 2
            &&& t.memory == s.memory && t.screen == s.screen && t.address_i == s.address_i
        }),
{
    let o = next_op(s);
    let x = op_x(o);
    let vx = s.registers[x];
    let vy = s.registers[op_y(o)];
    assert(((vx - vy + 256) % 256 + vy) % 256 == vx) by (nonlinear_arith)
        requires
            0 <= vx < 256,
            0 <= vy < 256,
    ;
    assert(((vy - vx + 256) % 256 + vx) % 256 == vy) by (nonlinear_arith)
        requires
            0 <= vx < 256,
            0 <= vy < 256,
    ;
    assert(2 * (vy / 2) + vy % 2 == vy);
    assert((vy * 2) % 256 + 256 * (vy / 128) == 2 * vy);
}

/// Loads and adds of an immediate (6XNN, 7XNN): VX becomes NN, or VX + NN
/// up to a multiple of 256; no other register changes.
pub proof fn lemma_cycle_immediate(s: Chip8View, keypad: Seq<bool>, random: u8)
    requires
        running(s),
        op_class(next_op(s)) == 6 || op_class(next_op(s)) == 7,
    ensures
        ({
            let o = next_op(s);
            let x = op_x(o);
            let t = cycle_result(s, keypad, random).0;
            &&& op_class(o) == 6 ==> t.registers[x] == op_nn(o)
            &&& op_class(o) == 7 ==> (t.registers[x] - s.registers[x] - op_nn(o)) % 256 == 0
            &&& forall|k: int| 0 <= k < 16 && k != x ==> #[trigger] t.registers[k] == s.registers[k]
            &&& t.pc == s.pc + 2
        }),
{
}

/// CXNN: VX becomes the random byte with only the bits of NN kept; no other
/// register changes.
pub proof fn lemma_cycle_random(s: Chip8View, keypad: Seq<bool>, random: u8)
    requires
        running(s),
        op_class(next_op(s)) == 0xC,
    ensures
        ({
            let o = next_op(s);
            let x = op_x(o);
            let t = cycle_result(s, keypad, random).0;
            &&& t.registers[x] == random & (op_nn(o) as u8)
            &&& forall|k: int| 0 <= k < 16 && k != x ==> #[trigger] t.registers[k] == s.registers[k]
            &&& t.pc == s.pc + 2
        }),
{
}

/// Conditional skips: 3XNN when VX = NN, 4XNN when VX != NN, 5XY0 when
/// VX = VY, 9XY0 when VX != VY, EX9E when key X is down, EXA1 when key X is
/// up. A skip moves the program counter past the next instruction (four
/// bytes on); otherwise it moves on by two. Nothing else changes but the
/// timers.
pub proof fn lemma_cycle_skip(s: Chip8View, keypad: Seq<bool>, random: u8)
    requires
        running(s),
        ({
            let c = op_class(next_op(s));
            c == 3 || c == 4 || c == 5 || c == 9 || c == 0xE
        }),
    ensures
        ({
            let o = next_op(s);
            let c = op_class(o);
            let vx = s.registers[op_x(o)];
            let vy = s.registers[op_y(o)];
            let t = cycle_result(s, keypad, random).0;
            let skipped = t.pc == s.pc + 4;
            &&& skipped || t.pc == s.pc + 2
            &&& c == 3 ==> (skipped <==> vx == op_nn(o))
            &&& c == 4 ==> (skipped <==> vx != op_nn(o))
            &&& c == 5 ==> (skipped <==> vx == vy)
            &&& c == 9 ==> (skipped <==> vx != vy)
            &&& c == 0xE && op_nn(o) == 0x9E ==> (skipped <==> keypad[op_x(o)])
            &&& c == 0xE && op_nn(o) == 0xA1 ==> (skipped <==> !keypad[op_x(o)])
            &&& t.registers == s.registers && t.memory == s.memory && t.screen == s.screen
            &&& t.stack == s.stack && t.address_i == s.address_i
        }),
{
}

/// Jumps, calls and returns: 1NNN goes to NNN; 2NNN goes to NNN and pushes
/// the address of the next instruction; 00EE pops the stack into the
/// program counter; BNNN goes to NNN + V0.
pub proof fn lemma_cycle_flow(s: Chip8View, keypad: Seq<bool>, random: u8)
    requires
        running(s),
        ({
            let o = next_op(s);
            op_class(o) == 1 || op_class(o) == 2 || op_class(o) == 0xB || (op_class(o) == 0
                && op_n(o) == 0xE)
        }),
    ensures
        ({
            let o = next_op(s);
            let c = op_class(o);
            let t = cycle_result(s, keypad, random).0;
            &&& c == 1 ==> t.pc == op_nnn(o) && t.stack == s.stack
            &&& c == 2 ==> t.pc == op_nnn(o) && t.stack == s.stack.push((s.pc + 2) as u16)
            &&& c == 0 ==> t.stack.push(t.pc) == s.stack
            &&& c == 0xB ==> t.pc == op_nnn(o) + s.registers[0] && t.stack == s.stack
            &&& t.registers == s.registers && t.memory == s.memory && t.screen == s.screen
        }),
{
    let o = next_op(s);
    if op_class(o) == 0 {
        let t = cycle_result(s, keypad, random).0;
        assert(t.stack.push(t.pc) =~= s.stack);
    }
}

/// The address register: ANNN sets I to NNN, FX1E adds VX to I, FX29 points
/// I at the five-byte font sprite of the digit in VX.
pub proof fn lemma_cycle_address(s: Chip8View, keypad: Seq<bool>, random: u8)
    requires
        running(s),
        op_class(next_op(s)) == 0xA || (op_class(next_op(s)) == 0xF && (op_nn(next_op(s))
            == 0x1E || op_nn(next_op(s)) == 0x29)),
    ensures
        ({
            let o = next_op(s);
            let vx = s.registers[op_x(o)];
            let t = cycle_result(s, keypad, random).0;
            &&& op_class(o) == 0xA ==> t.address_i == op_nnn(o)
            &&& op_class(o) == 0xF && op_nn(o) == 0x1E ==> t.address_i == s.address_i + vx
            &&& op_class(o) == 0xF && op_nn(o) == 0x29 ==> t.address_i == 5 * vx
            &&& t.registers == s.registers && t.memory == s.memory && t.pc == s.pc + 2
        }),
{
}

/// The timers: FX07 copies the delay timer into VX; FX15 and FX18 set the
/// delay and sound timers from VX, and the end of the cycle already counts
/// them down once; FX18 sounds the beeper exactly when VX is above zero.
/// Every other instruction leaves the timers to count down by one each,
/// stopping at zero.
pub proof fn lemma_cycle_timers(s: Chip8View, keypad: Seq<bool>, random: u8)
    requires
        running(s),
    ensures
        ({
            let o = next_op(s);
            let vx = s.registers[op_x(o)];
            let (t, out) = cycle_result(s, keypad, random);
            let sets_delay = op_class(o) == 0xF && op_nn(o) == 0x15;
            let sets_sound = op_class(o) == 0xF && op_nn(o) == 0x18;
            &&& op_class(o) == 0xF && op_nn(o) == 0x07 ==> t.registers[op_x(o)] == s.delay_timer
            &&& sets_delay ==> (vx > 0 ==> t.delay_timer + 1 == vx) && (vx == 0 ==> t.delay_timer
                == 0)
            &&& sets_sound ==> (vx > 0 ==> t.sound_timer + 1 == vx) && (vx == 0 ==> t.sound_timer
                == 0) && (out.beep == Beep::Start <==> vx > 0)
            &&& !sets_delay ==> (s.delay_timer > 0 ==> t.delay_timer + 1 == s.delay_timer) && (
            s.delay_timer == 0 ==> t.delay_timer == 0)
            &&& !sets_sound ==> (s.sound_timer > 0 ==> t.sound_timer + 1 == s.sound_timer) && (
            s.sound_timer == 0 ==> t.sound_timer == 0) && (out.beep == Beep::Start
                <==> s.sound_timer > 0)
            &&& out.beep == Beep::Start || out.beep == Beep::Stop
        }),
{
}

/// FX0A: the machine starts waiting for a key, to go to VX.
pub proof fn lemma_cycle_await_key(s: Chip8View, keypad: Seq<bool>, random: u8)
    requires
        running(s),
        op_class(next_op(s)) == 0xF,
        op_nn(next_op(s)) == 0x0A,
    ensures
        ({
            let t = cycle_result(s, keypad, random).0;
            t.key_wait && t.key_reg == op_x(next_op(s)) && t.registers == s.registers && t.pc
                == s.pc + 2
        }),
{
}

/// Memory instructions: FX33 writes the hundreds, tens and ones of VX from I
/// on; FX55 writes V0..VX to memory from I on and nothing else; FX65 reads
/// V0..VX from memory from I on and keeps the other registers; both move I
/// past the block.
pub proof fn lemma_cycle_memory(s: Chip8View, keypad: Seq<bool>, random: u8)
    requires
        running(s),
        op_class(next_op(s)) == 0xF,
        op_nn(next_op(s)) == 0x33 || op_nn(next_op(s)) == 0x55 || op_nn(next_op(s)) == 0x65,
    ensures
        ({
            let o = next_op(s);
            let x = op_x(o);
            let nn = op_nn(o);
            let i = s.address_i as int;
            let vx = s.registers[x];
            let t = cycle_result(s, keypad, random).0;
            &&& nn == 0x33 ==> t.memory[i] < 10 && t.memory[i + 1] < 10 && t.memory[i + 2] < 10
                && t.memory[i] * 100 + t.memory[i + 1] * 10 + t.memory[i + 2] == vx
            &&& nn == 0x33 ==> forall|k: int|
                0 <= k < MEMORY_SIZE && (k < i || k > i + 2) ==> #[trigger] t.memory[k]
                    == s.memory[k]
            &&& nn == 0x55 ==> (forall|k: int| 0 <= k <= x ==> #[trigger] t.memory[i + k] == s.registers[k])
            &&& nn == 0x55 ==> forall|k: int|
                0 <= k < MEMORY_SIZE && (k < i || k > i + x) ==> #[trigger] t.memory[k]
                    == s.memory[k]
            &&& nn == 0x65 ==> forall|k: int|
                0 <= k < 16 ==> #[trigger] t.registers[k] == if k <= x {
                    s.memory[i + k]
                } else {
                    s.registers[k]
                }
            &&& nn == 0x65 ==> t.memory == s.memory
            &&& (nn == 0x55 || nn == 0x65) ==> t.address_i == i + x + 1
            &&& t.memory.len() == MEMORY_SIZE
        }),
{
}

/// The screen: 00E0 turns every pixel off. DXYN (X and Y not VF) turns over
/// exactly the pixels under the sprite's set bits, sets VF to whether one of
/// them was lit, and asks for a redraw.
pub proof fn lemma_cycle_screen(s: Chip8View, keypad: Seq<bool>, random: u8)
    requires
        running(s),
        (op_class(next_op(s)) == 0 && op_n(next_op(s)) == 0) || (op_class(next_op(s)) == 0xD
            && op_x(next_op(s)) != 15 && op_y(next_op(s)) != 15),
    ensures
        ({
            let o = next_op(s);
            let (t, out) = cycle_result(s, keypad, random);
            let vx = s.registers[op_x(o)];
            let vy = s.registers[op_y(o)];
            let i = s.address_i as int;
            &&& t.screen.len() == SCREEN_SIZE
            &&& op_class(o) == 0 ==> (forall|p: int| 0 <= p < SCREEN_SIZE ==> #[trigger] t.screen[p] == 0)
                && t.registers == s.registers && !out.redraw
            &&& op_class(o) == 0xD ==> (forall|p: int|
                0 <= p < SCREEN_SIZE ==> #[trigger] t.screen[p] == s.screen[p] ^ sprite_mask(
                    s.memory,
                    i,
                    vx,
                    vy,
                    op_n(o),
                    op_n(o) * 8,
                    p,
                )) && t.registers[15] == (if collides(
                s.screen,
                s.memory,
                i,
                vx,
                vy,
                op_n(o),
                op_n(o) * 8,
            ) {
                1u8
            } else {
                0u8
            }) && out.redraw
            &&& op_class(o) == 0xD ==> forall|k: int|
                0 <= k < 15 ==> #[trigger] t.registers[k] == s.registers[k]
            &&& t.pc == s.pc + 2
        }),
{
    let o = next_op(s);
    if op_class(o) == 0xD {
        lemma_draw_xor(s.registers, s.screen, s.memory, s.address_i as int, op_x(o), op_y(o), op_n(o));
    }
}

/// The start state: the whole font from address 0, so that the five bytes
/// from `5 * d` are the sprite of digit `d`; the program from `PROGRAM_START`
/// as far as it fits; zeros everywhere else in memory, in the registers and
/// on the screen; the program counter at `PROGRAM_START`; nothing on the
/// stack, no timer running, no key awaited.
pub proof fn lemma_start_state(rom: Seq<u8>)
    ensures
        ({
            let s = initial_state(rom);
            &&& s.wf()
            &&& s.memory.subrange(0, FONT_SIZE as int) == font()
            &&& forall|d: int| 0 <= d < 16 ==> #[trigger] s.memory.subrange(5 * d, 5 * d + 5) == glyph(d)
            &&& forall|k: int|
                0 <= k < loaded_len(rom.len() as int) ==> #[trigger] s.memory[PROGRAM_START + k] == rom[k]
            &&& forall|k: int|
                FONT_SIZE <= k < MEMORY_SIZE && !(PROGRAM_START <= k < PROGRAM_START + loaded_len(
                    rom.len() as int,
                )) ==> #[trigger] s.memory[k] == 0
            &&& forall|k: int| 0 <= k < 16 ==> #[trigger] s.registers[k] == 0
            &&& forall|p: int| 0 <= p < SCREEN_SIZE ==> #[trigger] s.screen[p] == 0
            &&& s.pc == PROGRAM_START && s.address_i == 0 && s.stack.len() == 0
            &&& s.delay_timer == 0 && s.sound_timer == 0 && !s.key_wait
        }),
{
    let s = initial_state(rom);
    assert(s.memory.subrange(0, FONT_SIZE as int) =~= font());
    assert forall|d: int| 0 <= d < 16 implies #[trigger] s.memory.subrange(5 * d, 5 * d + 5) == glyph(d) by {
        assert(s.memory.subrange(5 * d, 5 * d + 5) =~= glyph(d));
    }
}

} // verus!
