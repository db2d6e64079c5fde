//! The whole machine: its state, one interpreter cycle, and the start state.
#![allow(non_snake_case)]

use vstd::prelude::*;
use crate::opcode::{op_class, op_x, op_y, op_n, op_nn, op_nnn, class_of, nibble_n, byte_nn, reg_x};
use crate::random::random_byte;
use crate::memory::{MEMORY_SIZE, PROGRAM_START, word_at, loaded_memory, fetch_opcode, rst};
use crate::display::{SCREEN_SIZE, blank_screen, draw_steps, op_00E0, op_DXYN};
use crate::font::{font, FONT_SIZE, store_hex_digits};
use crate::ops::{
    op_00EE, op_1NNN, op_2NNN, op_3XNN, op_4XNN, op_5XY0, op_6XNN, op_7XNN, op_8XY0, op_8XY1,
    op_8XY2, op_8XY3, op_8XY4, op_8XY5, op_8XY6, op_8XY7, op_8XYE, op_9XY0, op_ANNN, op_BNNN,
    op_CXNN, op_EX9E, op_EXA1, op_FX07, op_FX0A, op_FX15, op_FX18, op_FX1E, op_FX29, op_FX33,
    op_FX55, op_FX65,
};

verus! {

/// The interpreter's state.
pub struct Chip8 {
    /// Memory: the font from address 0, the program from `PROGRAM_START`.
    pub memory: Vec<u8>,
    /// The data registers V0 to VF; VF doubles as the flag register.
    pub registers: [u8; 16],
    /// The address register I.
    pub address_i: u16,
    /// Address of the next instruction.
    pub program_counter: u16,
    /// Return addresses of the subroutines that are running.
    pub stack: Vec<u16>,
    /// Counts down by one each cycle while above zero.
    pub delay_timer: u8,
    /// Counts down by one each cycle while above zero; the beeper sounds
    /// while it is above zero.
    pub sound_timer: u8,
    /// Whether the machine waits for a key press instead of running.
    pub key_wait: bool,
    /// The register that receives the awaited key.
    pub key_reg: usize,
    /// The screen, `CHIP_8_WIDTH` pixels per row, row after row; 1 is lit.
    pub screen: Vec<u8>,
}

/// What the interpreter's state stands for.
pub struct Chip8View {
    pub memory: Seq<u8>,
    pub registers: Seq<u8>,
    pub address_i: u16,
    pub pc: u16,
    pub stack: Seq<u16>,
    pub delay_timer: u8,
    pub sound_timer: u8,
    pub key_wait: bool,
    pub key_reg: int,
    pub screen: Seq<u8>,
}

impl View for Chip8 {
    type V = Chip8View;

    open spec fn view(&self) -> Chip8View {
        Chip8View {
            memory: self.memory@,
            registers: self.registers@,
            address_i: self.address_i,
            pc: self.program_counter,
            stack: self.stack@,
            delay_timer: self.delay_timer,
            sound_timer: self.sound_timer,
            key_wait: self.key_wait,
            key_reg: self.key_reg as int,
            screen: self.screen@,
        }
    }
}

/// What the beeper is told at the end of a cycle.
#[derive(Clone, Copy, Debug, PartialEq, Eq, Structural)]
pub enum Beep {
    /// Sound the beeper.
    Start,
    /// Silence the beeper.
    Stop,
    /// Leave it as it is.
    Keep,
}

/// What a cycle asks of the window and the speaker.
#[derive(Clone, Copy, Debug, PartialEq, Eq, Structural)]
pub struct CycleOutput {
    /// The screen was drawn on and should be shown again.
    pub redraw: bool,
    pub beep: Beep,
}

impl Chip8View {
    /// The shape every state keeps: memory and screen of their sizes, a
    /// register to receive a key, and every pixel 0 or 1.
    pub open spec fn wf(self) -> bool {
        &&& self.memory.len() == MEMORY_SIZE
        &&& self.registers.len() == 16
        &&& self.screen.len() == SCREEN_SIZE
        &&& 0 <= self.key_reg < 16
        &&& forall|p: int| 0 <= p < SCREEN_SIZE ==> #[trigger] self.screen[p] <= 1
    }
}

/// `pc`, moved on by `by` where `cond` holds.
pub open spec fn skip_if(pc: u16, cond: bool, by: int) -> u16 {
    if cond {
        (pc + by) as u16
    } else {
        pc
    }
}

/// Whether opcode `o` can be carried out in state `s` (whose program
/// counter has already moved past it) without failing: the opcode is one of
/// the instruction set, a return finds a return address, and every memory
/// access and address sum stays in range.
pub open spec fn exec_ok(s: Chip8View, o: u16) -> bool {
    let c = op_class(o);
    let x = op_x(o);
    if c == 0 {
        op_n(o) == 0 || (op_n(o) == 0xE && s.stack.len() > 0)
    } else if c == 8 {
        op_n(o) <= 7 || op_n(o) == 0xE
    } else if c == 0xD {
        op_n(o) == 0 || s.address_i + op_n(o) <= MEMORY_SIZE
    } else if c == 0xE {
        op_nn(o) == 0x9E || op_nn(o) == 0xA1
    } else if c == 0xF {
        let nn = op_nn(o);
        ||| nn == 0x07 || nn == 0x0A || nn == 0x15 || nn == 0x18 || nn == 0x29
        ||| nn == 0x1E && s.address_i + s.registers[x] <= u16::MAX
        ||| nn == 0x33 && s.address_i + 2 < MEMORY_SIZE
        ||| (nn == 0x55 || nn == 0x65) && s.address_i + x < MEMORY_SIZE
    } else {
        true
    }
}

/// The registers after an arithmetic or logic instruction 8XYN.
pub open spec fn alu_result(r: Seq<u8>, o: u16) -> Seq<u8> {
    let x = op_x(o);
    let y = op_y(o);
    let n = op_n(o);
    if n == 0 {
        r.update(x, r[y])
    } else if n == 1 {
        r.update(x, r[x] | r[y])
    } else if n == 2 {
        r.update(x, r[x] & r[y])
    } else if n == 3 {
        r.update(x, r[x] ^ r[y])
    } else if n == 4 {
        r.update(x, ((r[x] + r[y]) % 256) as u8).update(
            15,
            if r[x] + r[y] > 255 { 1u8 } else { 0u8 },
        )
    } else if n == 5 {
        r.update(x, ((r[x] - r[y] + 256) % 256) as u8).update(
            15,
            if r[x] > r[y] { 1u8 } else { 0u8 },
        )
    } else if n == 6 {
        r.update(x, (r[y] / 2) as u8).update(15, (r[y] % 2) as u8)
    } else if n == 7 {
        r.update(x, ((r[y] - r[x] + 256) % 256) as u8).update(
            15,
            if r[y] < r[x] { 0u8 } else { 1u8 },
        )
    } else {
        r.update(x, ((r[y] * 2) % 256) as u8).update(15, (r[y] / 128) as u8)
    }
}

/// The state after instruction group F (timers, key wait, I, memory).
pub open spec fn misc_result(s: Chip8View, o: u16) -> Chip8View {
    let x = op_x(o);
    let nn = op_nn(o);
    let vx = s.registers[x];
    let i = s.address_i as int;
    if nn == 0x07 {
        Chip8View { registers: s.registers.update(x, s.delay_timer), ..s }
    } else if nn == 0x0A {
        Chip8View { key_wait: true, key_reg: x, ..s }
    } else if nn == 0x15 {
        Chip8View { delay_timer: vx, ..s }
    } else if nn == 0x18 {
        Chip8View { sound_timer: vx, ..s }
    } else if nn == 0x1E {
        Chip8View { address_i: (i + vx) as u16, ..s }
    } else if nn == 0x29 {
        Chip8View { address_i: (vx * 5) as u16, ..s }
    } else if nn == 0x33 {
        Chip8View {
            memory: s.memory.update(i, (vx / 100) as u8).update(i + 1, ((vx % 100) / 10) as u8)
                .update(i + 2, (vx % 10) as u8),
            ..s
        }
    } else if nn == 0x55 {
        Chip8View {
            memory: Seq::new(
                s.memory.len(),
                |k: int|
                    if i <= k <= i + x {
                        s.registers[k - i]
                    } else {
                        s.memory[k]
                    },
            ),
            address_i: (i + x + 1) as u16,
            ..s
        }
    } else {
        Chip8View {
            registers: Seq::new(
                16,
                |r: int|
                    if r <= x {
                        s.memory[i + r]
                    } else {
                        s.registers[r]
                    },
            ),
            address_i: (i + x + 1) as u16,
            ..s
        }
    }
}

/// The state after carrying out opcode `o` in state `s`, whose program
/// counter has already moved past it; `keypad` is the keys held down and
/// `random` the random byte for CXNN.
pub open spec fn execute_result(s: Chip8View, o: u16, keypad: Seq<bool>, random: u8) -> Chip8View {
    let c = op_class(o);
    let x = op_x(o);
    let y = op_y(o);
    let r = s.registers;
    if c == 0 {
        if op_n(o) == 0 {
            Chip8View { screen: blank_screen(), ..s }
        } else {
            Chip8View { pc: s.stack.last(), stack: s.stack.drop_last(), ..s }
        }
    } else if c == 1 {
        Chip8View { pc: op_nnn(o) as u16, ..s }
    } else if c == 2 {
        Chip8View { pc: op_nnn(o) as u16, stack: s.stack.push(s.pc), ..s }
    } else if c == 3 {
        Chip8View { pc: skip_if(s.pc, r[x] == op_nn(o), 2), ..s }
    } else if c == 4 {
        Chip8View { pc: skip_if(s.pc, r[x] != op_nn(o), 2), ..s }
    } else if c == 5 {
        Chip8View { pc: skip_if(s.pc, r[x] == r[y], 2), ..s }
    } else if c == 6 {
        Chip8View { registers: r.update(x, op_nn(o) as u8), ..s }
    } else if c == 7 {
        Chip8View { registers: r.update(x, ((r[x] + op_nn(o)) % 256) as u8), ..s }
    } else if c == 8 {
        Chip8View { registers: alu_result(r, o), ..s }
    } else if c == 9 {
        Chip8View { pc: skip_if(s.pc, r[x] != r[y], 2), ..s }
    } else if c == 0xA {
        Chip8View { address_i: op_nnn(o) as u16, ..s }
    } else if c == 0xB {
        Chip8View { pc: (op_nnn(o) + r[0]) as u16, ..s }
    } else if c == 0xC {
        Chip8View { registers: r.update(x, random & (op_nn(o) as u8)), ..s }
    } else if c == 0xD {
        let drawn = draw_steps(r, s.screen, s.memory, s.address_i as int, x, y, (op_n(o) * 8) as nat);
        Chip8View { registers: drawn.0, screen: drawn.1, ..s }
    } else if c == 0xE {
        if op_nn(o) == 0x9E {
            Chip8View { pc: skip_if(s.pc, keypad[x], 2), ..s }
        } else {
            Chip8View { pc: skip_if(s.pc, !keypad[x], 2), ..s }
        }
    } else {
        misc_result(s, o)
    }
}

/// The timers after the end of a cycle: each one above zero counts down by
/// one.
pub open spec fn tick(s: Chip8View) -> Chip8View {
    Chip8View {
        delay_timer: if s.delay_timer > 0 { (s.delay_timer - 1) as u8 } else { 0u8 },
        sound_timer: if s.sound_timer > 0 { (s.sound_timer - 1) as u8 } else { 0u8 },
        ..s
    }
}

/// The lowest keypad key from `from` on that is held down, if any.
pub open spec fn first_pressed(keypad: Seq<bool>, from: int) -> Option<int>
    decreases 16 - from,
{
    if from >= 16 || from < 0 {
        None
    } else if keypad[from] {
        Some(from)
    } else {
        first_pressed(keypad, from + 1)
    }
}

/// The state after a cycle spent waiting for a key: the lowest key held
/// down, if any, goes to the awaited register and ends the wait.
pub open spec fn key_wait_result(s: Chip8View, keypad: Seq<bool>) -> Chip8View {
    match first_pressed(keypad, 0) {
        Some(k) => Chip8View {
            key_wait: false,
            registers: s.registers.update(s.key_reg, k as u8),
            ..s
        },
        None => s,
    }
}

/// The state once the instruction at the program counter has been fetched.
pub open spec fn fetched(s: Chip8View) -> Chip8View {
    Chip8View { pc: (s.pc + 2) as u16, ..s }
}

/// Whether one cycle can run from `s` without failing: a waiting
/// machine always does; a running one needs its program counter and the
/// instruction there to be in order.
pub open spec fn cycle_ok(s: Chip8View) -> bool {
    s.key_wait || (s.pc + 1 < MEMORY_SIZE && exec_ok(fetched(s), word_at(s.memory, s.pc as int)))
}

/// Whether the next cycle from `s` runs CXNN, and so needs a random byte.
pub open spec fn needs_random(s: Chip8View) -> bool {
    !s.key_wait && op_class(word_at(s.memory, s.pc as int)) == 0xC
}

/// One cycle from `s` with `keypad` held down and `random` as the random
/// byte: the state it leaves and what it asks of the window and the speaker.
/// A waiting machine only looks for a key. A running one fetches, carries
/// out the instruction, asks for a redraw after a sprite was drawn, then
/// sounds the beeper while the sound timer is above zero and counts the
/// timers down.
pub open spec fn cycle_result(s: Chip8View, keypad: Seq<bool>, random: u8) -> (Chip8View, CycleOutput) {
    if s.key_wait {
        (key_wait_result(s, keypad), CycleOutput { redraw: false, beep: Beep::Keep })
    } else {
        let o = word_at(s.memory, s.pc as int);
        let e = execute_result(fetched(s), o, keypad, random);
        (
            tick(e),
            CycleOutput {
                redraw: op_class(o) == 0xD,
                beep: if e.sound_timer > 0 { Beep::Start } else { Beep::Stop },
            },
        )
    }
}

/// Drawing keeps the sizes of the registers and of the screen, and keeps
/// every pixel 0 or 1.
pub proof fn lemma_draw_keeps_shape(
    regs: Seq<u8>,
    screen: Seq<u8>,
    mem: Seq<u8>,
    i: int,
    x: int,
    y: int,
    k: nat,
)
    requires
        regs.len() == 16,
        screen.len() == SCREEN_SIZE,
        0 <= x < 16,
        0 <= y < 16,
        forall|p: int| 0 <= p < SCREEN_SIZE ==> #[trigger] screen[p] <= 1,
    ensures
        draw_steps(regs, screen, mem, i, x, y, k).0.len() == 16,
        draw_steps(regs, screen, mem, i, x, y, k).1.len() == SCREEN_SIZE,
        forall|p: int|
            0 <= p < SCREEN_SIZE ==> #[trigger] draw_steps(regs, screen, mem, i, x, y, k).1[p] <= 1,
    decreases k,
{
    if k > 0 {
        let j = (k - 1) as nat;
        lemma_draw_keeps_shape(regs, screen, mem, i, x, y, j);
        let (r, s) = draw_steps(regs, screen, mem, i, x, y, j);
        let p = crate::display::draw_pos(regs, screen, mem, i, x, y, j);
        let row_start = draw_steps(regs, screen, mem, i, x, y, (j - j % 8) as nat).0;
        lemma_draw_keeps_shape(regs, screen, mem, i, x, y, (j - j % 8) as nat);
        let a = (row_start[y] + j / 8) % 32;
        let b = (r[x] + j % 8) % 64;
        assert(0 <= a * 64 + b < SCREEN_SIZE) by (nonlinear_arith)
            requires
                0 <= a < 32,
                0 <= b < 64,
        ;
        let c = crate::display::sprite_bit(mem[i + j / 8], (j % 8) as int);
        let row = mem[i + j / 8];
        let sh = (7 - (j % 8) as int) as u8;
        assert((row >> sh) & 1u8 <= 1) by (bit_vector);
        let old_px = s[p];
        assert(old_px <= 1 && c <= 1 ==> old_px ^ c <= 1) by (bit_vector);
    }
}

/// Carrying out an instruction keeps the shape of the state.
pub proof fn lemma_execute_keeps_wf(s: Chip8View, o: u16, keypad: Seq<bool>, random: u8)
    requires
        s.wf(),
        exec_ok(s, o),
    ensures
        execute_result(s, o, keypad, random).wf(),
{
    let c = op_class(o);
    assert(0 <= op_x(o) < 16 && 0 <= op_y(o) < 16);
    if c == 0xD {
        lemma_draw_keeps_shape(
            s.registers,
            s.screen,
            s.memory,
            s.address_i as int,
            op_x(o),
            op_y(o),
            (op_n(o) * 8) as nat,
        );
    } else if c == 0 {
        let e = execute_result(s, o, keypad, random);
        assert forall|p: int| 0 <= p < SCREEN_SIZE implies #[trigger] e.screen[p] <= 1 by {
        }
    }
}

/// The start state: the font at address 0, the program at `PROGRAM_START`
/// (as much of it as fits), the rest of memory, the registers, the stack, the
/// timers and the screen all zero, and no key awaited.
pub open spec fn initial_state(rom: Seq<u8>) -> Chip8View {
    Chip8View {
        memory: loaded_memory(
            font() + Seq::new((MEMORY_SIZE - FONT_SIZE) as nat, |k: int| 0u8),
            rom,
        ),
        registers: Seq::new(16, |k: int| 0u8),
        address_i: 0,
        pc: PROGRAM_START as u16,
        stack: Seq::empty(),
        delay_timer: 0,
        sound_timer: 0,
        key_wait: false,
        key_reg: 0,
        screen: blank_screen(),
    }
}

impl Chip8 {
    /// A machine with `rom` loaded, ready to run it.
    pub fn new(rom: &[u8]) -> (m: Chip8)
        ensures
            m.wf(),
            m@ == initial_state(rom@),
    {
        let mut memory: Vec<u8> = vec![0u8; MEMORY_SIZE];
        let mut address_i: u16 = 0;
        let mut program_counter: u16 = 0;
        store_hex_digits(&mut memory);
        proof {
            assert(memory@ =~= font() + Seq::new((MEMORY_SIZE - FONT_SIZE) as nat, |k: int| 0u8));
        }
        rst(&mut memory, &mut address_i, &mut program_counter, rom);
        let m = Chip8 {
            memory,
            registers: [0u8; 16],
            address_i,
            program_counter,
            stack: Vec::new(),
            delay_timer: 0,
            sound_timer: 0,
            key_wait: false,
            key_reg: 0,
            screen: vec![0u8; SCREEN_SIZE],
        };
        assert(m@.registers =~= Seq::new(16, |k: int| 0u8));
        assert(m@.screen =~= blank_screen());
        m
    }

    /// Whether `cycle` can run from this state: `cycle_ok`, computed.
    pub fn can_cycle(&self) -> (ok: bool)
        requires
            self.wf(),
        ensures
            ok == cycle_ok(self@),
    {
        if self.key_wait {
            return true;
        }
        if self.program_counter as usize + 1 >= MEMORY_SIZE {
            return false;
        }
        let mut pc = self.program_counter;
        let opcode = fetch_opcode(&self.memory, &mut pc);
        self.opcode_ok(opcode)
    }

    /// Whether `opcode` can be carried out in this state: `exec_ok`,
    /// computed.
    fn opcode_ok(&self, opcode: u16) -> (ok: bool)
        requires
            self.wf(),
        ensures
            ok == exec_ok(self@, opcode),
            ok == exec_ok(fetched(self@), opcode),
    {
        let class = class_of(opcode);
        let n = nibble_n(opcode);
        let nn = byte_nn(opcode);
        let x = reg_x(opcode);
        match class {
            0x0 => n == 0 || (n == 0xE && self.stack.len() > 0),
            0x8 => n <= 7 || n == 0xE,
            0xD => n == 0 || self.address_i as usize + n as usize <= MEMORY_SIZE,
            0xE => nn == 0x9E || nn == 0xA1,
            0xF => {
                if nn == 0x07 || nn == 0x0A || nn == 0x15 || nn == 0x18 || nn == 0x29 {
                    true
                } else if nn == 0x1E {
                    self.address_i as u32 + self.registers[x] as u32 <= u16::MAX as u32
                } else if nn == 0x33 {
                    (self.address_i as usize) + 2 < MEMORY_SIZE
                } else if nn == 0x55 || nn == 0x65 {
                    (self.address_i as usize) + x < MEMORY_SIZE
                } else {
                    false
                }
            },
            _ => true,
        }
    }

    /// Counts the timers down; the beeper sounds while the sound timer was
    /// above zero.
    fn tick_timers(&mut self) -> (beep: Beep)
        ensures
            final(self)@ == tick(old(self)@),
            beep == if old(self)@.sound_timer > 0 { Beep::Start } else { Beep::Stop },
    {
        if self.delay_timer > 0 {
            self.delay_timer = self.delay_timer - 1;
        }
        if self.sound_timer > 0 {
            self.sound_timer = self.sound_timer - 1;
            Beep::Start
        } else {
            Beep::Stop
        }
    }

    /// Looks for the awaited key: the lowest key held down goes to the
    /// awaited register and ends the wait.
    fn wait_for_key(&mut self, keypad: &[bool; 16])
        requires
            old(self).wf(),
        ensures
            final(self)@ == key_wait_result(old(self)@, keypad@),
    {
        let mut keypress: usize = 0;
        while keypress < 16
            invariant
                keypress <= 16,
                first_pressed(keypad@, 0) == first_pressed(keypad@, keypress as int),
                self@ == old(self)@,
                self.key_reg < 16,
            decreases 16 - keypress,
        {
            if keypad[keypress] {
                self.key_wait = false;
                let r = self.key_reg;
                self.registers[r] = keypress as u8;
                return;
            }
            keypress = keypress + 1;
        }
    }

    /// One interpreter cycle with `keypad` held down and `random` as the
    /// random byte for CXNN; see `cycle_result`.
    pub fn cycle(&mut self, keypad: &[bool; 16], random: u8) -> (out: CycleOutput)
        requires
            old(self).wf(),
            cycle_ok(old(self)@),
        ensures
            final(self).wf(),
            (final(self)@, out) == cycle_result(old(self)@, keypad@, random),
    {
        if self.key_wait {
            self.wait_for_key(keypad);
            return CycleOutput { redraw: false, beep: Beep::Keep };
        }
        let opcode = fetch_opcode(&self.memory, &mut self.program_counter);
        proof {
            lemma_execute_keeps_wf(self@, opcode, keypad@, random);
        }
        let redraw = self.execute(opcode, keypad, random);
        let beep = self.tick_timers();
        CycleOutput { redraw, beep }
    }

    /// One interpreter cycle with `keypad` held down. Where the instruction
    /// to run is CXNN, the random byte is drawn from the operating system;
    /// where none can be had, nothing runs and `None` comes back. Otherwise
    /// the result is the one of `cycle` (for some random byte, where one was
    /// drawn).
    pub fn step(&mut self, keypad: &[bool; 16]) -> (out: Option<CycleOutput>)
        requires
            old(self).wf(),
            cycle_ok(old(self)@),
        ensures
            final(self).wf(),
            match out {
                Some(o) => exists|random: u8|
                    (final(self)@, o) == cycle_result(old(self)@, keypad@, random),
                None => needs_random(old(self)@) && final(self)@ == old(self)@,
            },
            !needs_random(old(self)@) ==> out == Some(cycle_result(old(self)@, keypad@, 0).1),
            !needs_random(old(self)@) ==> final(self)@ == cycle_result(old(self)@, keypad@, 0).0,
    {
        let drawn = if self.needs_random_byte() {
            random_byte()
        } else {
            None
        };
        self.step_with_byte(keypad, drawn)
    }

    /// Whether the next cycle runs CXNN and so needs a random byte:
    /// `needs_random`, computed.
    pub fn needs_random_byte(&self) -> (r: bool)
        requires
            self.wf(),
            cycle_ok(self@),
        ensures
            r == needs_random(self@),
    {
        if self.key_wait {
            return false;
        }
        let mut pc = self.program_counter;
        let opcode = fetch_opcode(&self.memory, &mut pc);
        class_of(opcode) == 0xC
    }

    /// One interpreter cycle with `keypad` held down and `drawn` as the random
    /// byte that was drawn for CXNN, if one was. With a byte, the cycle is
    /// the one of `cycle` with that byte. Without one, an instruction that
    /// needs a byte does not run (`None`, state unchanged), and any other
    /// instruction runs as with any byte.
    pub fn step_with_byte(&mut self, keypad: &[bool; 16], drawn: Option<u8>) -> (out: Option<CycleOutput>)
        requires
            old(self).wf(),
            cycle_ok(old(self)@),
        ensures
            final(self).wf(),
            match drawn {
                Some(b) => out == Some(cycle_result(old(self)@, keypad@, b).1) && final(self)@
                    == cycle_result(old(self)@, keypad@, b).0,
                None => if needs_random(old(self)@) {
                    out is None && final(self)@ == old(self)@
                } else {
                    out == Some(cycle_result(old(self)@, keypad@, 0).1) && final(self)@
                        == cycle_result(old(self)@, keypad@, 0).0
                },
            },
    {
        let random: u8 = match drawn {
            Some(b) => b,
            None => {
                if self.needs_random_byte() {
                    return None;
                }
                0
            },
        };
        Some(self.cycle(keypad, random))
    }

    /// Whether the state has the shape every state keeps.
    pub open spec fn wf(&self) -> bool {
        self@.wf()
    }

    /// Carries out an arithmetic or logic instruction 8XYN.
    fn execute_alu(&mut self, opcode: u16)
        requires
            op_class(opcode) == 8,
            op_n(opcode) <= 7 || op_n(opcode) == 0xE,
        ensures
            final(self)@ == (Chip8View { registers: alu_result(old(self)@.registers, opcode), ..old(self)@ }),
    {
        let n = nibble_n(opcode);
        match n {
            0x0 => op_8XY0(opcode, &mut self.registers),
            0x1 => op_8XY1(opcode, &mut self.registers),
            0x2 => op_8XY2(opcode, &mut self.registers),
            0x3 => op_8XY3(opcode, &mut self.registers),
            0x4 => op_8XY4(opcode, &mut self.registers),
            0x5 => op_8XY5(opcode, &mut self.registers),
            0x6 => op_8XY6(opcode, &mut self.registers),
            0x7 => op_8XY7(opcode, &mut self.registers),
            _ => op_8XYE(opcode, &mut self.registers),
        }
    }

    /// Carries out an instruction of group F: timers, key wait, the address
    /// register and memory.
    fn execute_misc(&mut self, opcode: u16)
        requires
            old(self).wf(),
            op_class(opcode) == 0xF,
            exec_ok(old(self)@, opcode),
        ensures
            final(self)@ == misc_result(old(self)@, opcode),
    {
        let nn = byte_nn(opcode);
        match nn {
            0x07 => op_FX07(self.delay_timer, opcode, &mut self.registers),
            0x0A => op_FX0A(&mut self.key_wait, &mut self.key_reg, opcode),
            0x15 => op_FX15(&mut self.delay_timer, opcode, &self.registers),
            0x18 => op_FX18(&mut self.sound_timer, opcode, &self.registers),
            0x1E => op_FX1E(&mut self.address_i, opcode, &self.registers),
            0x29 => op_FX29(&mut self.address_i, opcode, &self.registers),
            0x33 => op_FX33(self.address_i, opcode, &self.registers, &mut self.memory),
            0x55 => {
                op_FX55(&mut self.address_i, opcode, &self.registers, &mut self.memory);
                assert(self.memory@ =~= misc_result(old(self)@, opcode).memory);
            },
            _ => {
                op_FX65(&mut self.address_i, opcode, &mut self.registers, &self.memory);
                assert(self.registers@ =~= misc_result(old(self)@, opcode).registers);
            },
        }
    }

    /// Carries out `opcode`, the program counter already past it; returns
    /// whether the screen was drawn on.
    fn execute(&mut self, opcode: u16, keypad: &[bool; 16], random: u8) -> (drawn: bool)
        requires
            old(self).wf(),
            old(self).program_counter <= MEMORY_SIZE,
            exec_ok(old(self)@, opcode),
        ensures
            final(self)@ == execute_result(old(self)@, opcode, keypad@, random),
            drawn == (op_class(opcode) == 0xD),
    {
        let class = class_of(opcode);
        match class {
            0x0 => {
                if nibble_n(opcode) == 0 {
                    op_00E0(&mut self.screen);
                } else {
                    op_00EE(&mut self.program_counter, &mut self.stack);
                }
            },
            0x1 => op_1NNN(&mut self.program_counter, opcode),
            0x2 => op_2NNN(&mut self.program_counter, opcode, &mut self.stack),
            0x3 => op_3XNN(&mut self.program_counter, opcode, &self.registers),
            0x4 => op_4XNN(&mut self.program_counter, opcode, &self.registers),
            0x5 => op_5XY0(&mut self.program_counter, opcode, &self.registers),
            0x6 => op_6XNN(opcode, &mut self.registers),
            0x7 => op_7XNN(opcode, &mut self.registers),
            0x8 => self.execute_alu(opcode),
            0x9 => op_9XY0(&mut self.program_counter, opcode, &self.registers),
            0xA => op_ANNN(&mut self.address_i, opcode),
            0xB => op_BNNN(&mut self.program_counter, opcode, &self.registers),
            0xC => op_CXNN(opcode, &mut self.registers, random),
            0xD => {
                op_DXYN(self.address_i, opcode, &mut self.registers, &mut self.screen, &self.memory);
                return true;
            },
            0xE => {
                if byte_nn(opcode) == 0x9E {
                    op_EX9E(&mut self.program_counter, opcode, keypad);
                } else {
                    op_EXA1(&mut self.program_counter, opcode, keypad);
                }
            },
            _ => self.execute_misc(opcode),
        }
        false
    }
}

} // verus!
