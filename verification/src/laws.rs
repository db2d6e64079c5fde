//! Properties of the machine that span instructions or cycles.

use vstd::prelude::*;
use crate::opcode::{op_class, op_x, op_y, op_n, op_nn, op_nnn};
use crate::display::SCREEN_SIZE;
use crate::font::font;
use crate::keypad::{KeyName, key_slot};
use crate::sprite::{lemma_draw_xor, sprite_mask};
use crate::machine::{
    Chip8View, Beep, execute_result, cycle_result, first_pressed, exec_ok,
};

verus! {

/// Drawing the same sprite twice at the same place (DXYN twice, where
/// neither X nor Y names VF) leaves the screen as it was.
pub proof fn lemma_draw_twice(s: Chip8View, o: u16, keypad: Seq<bool>, random: u8)
    requires
        s.wf(),
        op_class(o) == 0xD,
        op_x(o) != 15,
        op_y(o) != 15,
    ensures
        execute_result(execute_result(s, o, keypad, random), o, keypad, random).screen == s.screen,
{
    let x = op_x(o);
    let y = op_y(o);
    let n = op_n(o);
    let i = s.address_i as int;
    let t = execute_result(s, o, keypad, random);
    lemma_draw_xor(s.registers, s.screen, s.memory, i, x, y, n);
    assert(t.registers[x] == s.registers[x] && t.registers[y] == s.registers[y]);
    assert forall|p: int| 0 <= p < SCREEN_SIZE implies #[trigger] t.screen[p] <= 1 by {
        let a = s.screen[p];
        let m = sprite_mask(s.memory, i, s.registers[x], s.registers[y], n, n * 8, p);
        crate::sprite::lemma_mask_small(s.memory, i, s.registers[x], s.registers[y], n, n * 8, p);
        assert(a <= 1 && m <= 1 ==> a ^ m <= 1) by (bit_vector);
    }
    lemma_draw_xor(t.registers, t.screen, t.memory, i, x, y, n);
    let u = execute_result(t, o, keypad, random);
    assert forall|p: int| 0 <= p < SCREEN_SIZE implies #[trigger] u.screen[p] == s.screen[p] by {
        let a = s.screen[p];
        let m = sprite_mask(s.memory, i, s.registers[x], s.registers[y], n, n * 8, p);
        assert((a ^ m) ^ m == a) by (bit_vector);
    }
    assert(u.screen =~= s.screen);
}

/// A call (2NNN) followed by a return (00EE) comes back to the instruction
/// after the call, with the stack as it was.
pub proof fn lemma_call_then_return(s: Chip8View, call: u16, ret: u16, keypad: Seq<bool>, random: u8)
    requires
        op_class(call) == 2,
        op_class(ret) == 0,
        op_n(ret) == 0xE,
    ensures
        ({
            let after = execute_result(execute_result(s, call, keypad, random), ret, keypad, random);
            after.pc == s.pc && after.stack == s.stack
        }),
{
    let t = execute_result(s, call, keypad, random);
    assert(t.stack.drop_last() =~= s.stack);
}

/// FX33 stores the decimal digits of VX: each below ten, and together worth
/// VX.
pub proof fn lemma_bcd(s: Chip8View, o: u16, keypad: Seq<bool>, random: u8)
    requires
        s.wf(),
        op_class(o) == 0xF,
        op_nn(o) == 0x33,
        exec_ok(s, o),
    ensures
        ({
            let m = execute_result(s, o, keypad, random).memory;
            let i = s.address_i as int;
            &&& m[i] < 10 && m[i + 1] < 10 && m[i + 2] < 10
            &&& m[i] * 100 + m[i + 1] * 10 + m[i + 2] == s.registers[op_x(o)]
        }),
{
}

/// Storing V0..VX (FX55), pointing I back where they went (ANNN), and loading
/// V0..VX from there (FX65) gives every register back as it was.
pub proof fn lemma_store_then_load(
    s: Chip8View,
    store: u16,
    back: u16,
    load: u16,
    keypad: Seq<bool>,
    random: u8,
)
    requires
        s.wf(),
        op_class(store) == 0xF,
        op_nn(store) == 0x55,
        exec_ok(s, store),
        op_class(back) == 0xA,
        op_nnn(back) == s.address_i,
        op_class(load) == 0xF,
        op_nn(load) == 0x65,
        op_x(load) == op_x(store),
    ensures
        ({
            let t = execute_result(s, store, keypad, random);
            let u = execute_result(t, back, keypad, random);
            let v = execute_result(u, load, keypad, random);
            v.registers == s.registers && v.address_i == t.address_i
        }),
{
    let t = execute_result(s, store, keypad, random);
    let u = execute_result(t, back, keypad, random);
    let v = execute_result(u, load, keypad, random);
    assert(v.registers =~= s.registers);
}

/// FX29 points I at the font sprite of the digit in VX: where memory begins
/// with the font, the five bytes from I are that digit's sprite.
pub proof fn lemma_font_sprite(s: Chip8View, o: u16, keypad: Seq<bool>, random: u8)
    requires
        s.wf(),
        s.memory.subrange(0, 80) == font(),
        op_class(o) == 0xF,
        op_nn(o) == 0x29,
        s.registers[op_x(o)] < 16,
    ensures
        ({
            let t = execute_result(s, o, keypad, random);
            let d = s.registers[op_x(o)] as int;
            t.memory.subrange(t.address_i as int, t.address_i + 5) == font().subrange(d * 5, d * 5 + 5)
        }),
{
    let t = execute_result(s, o, keypad, random);
    let d = s.registers[op_x(o)] as int;
    assert(t.address_i == d * 5);
    assert(t.memory.subrange(t.address_i as int, t.address_i + 5) =~= font().subrange(d * 5, d * 5 + 5)) by {
        assert forall|k: int| 0 <= k < 5 implies #[trigger] t.memory.subrange(
            t.address_i as int,
            t.address_i + 5,
        )[k] == font().subrange(d * 5, d * 5 + 5)[k] by {
            assert(s.memory.subrange(0, 80)[d * 5 + k] == s.memory[d * 5 + k]);
        }
    }
}

/// 8XY4 where X is not VF: the new VX and the carry in VF together make the
/// full sum of VX and VY.
pub proof fn lemma_add_carry(s: Chip8View, o: u16, keypad: Seq<bool>, random: u8)
    requires
        s.wf(),
        op_class(o) == 8,
        op_n(o) == 4,
        op_x(o) != 15,
    ensures
        ({
            let r = execute_result(s, o, keypad, random).registers;
            r[op_x(o)] + 256 * r[15] == s.registers[op_x(o)] + s.registers[op_y(o)]
        }),
{
}

/// A machine that waits for a key and finds none held down stays exactly as
/// it is: no instruction runs and the timers stand still.
pub proof fn lemma_wait_without_key(s: Chip8View, keypad: Seq<bool>, random: u8)
    requires
        s.key_wait,
        keypad.len() == 16,
        forall|k: int| 0 <= k < 16 ==> !#[trigger] keypad[k],
    ensures
        cycle_result(s, keypad, random).0 == s,
        cycle_result(s, keypad, random).1.beep == Beep::Keep,
{
    lemma_first_pressed_none(keypad, 0);
}

proof fn lemma_first_pressed_none(keypad: Seq<bool>, from: int)
    requires
        0 <= from <= 16,
        forall|k: int| 0 <= k < 16 ==> !#[trigger] keypad[k],
    ensures
        first_pressed(keypad, from) is None,
    decreases 16 - from,
{
    if from < 16 {
        lemma_first_pressed_none(keypad, from + 1);
    }
}

proof fn lemma_first_pressed_lowest(keypad: Seq<bool>, from: int, k: int)
    requires
        0 <= from <= k < 16,
        keypad[k],
        forall|m: int| from <= m < k ==> !#[trigger] keypad[m],
    ensures
        first_pressed(keypad, from) == Some(k),
    decreases k - from,
{
    if from < k {
        lemma_first_pressed_lowest(keypad, from + 1, k);
    }
}

/// A machine that waits for a key, with keys held down, puts the lowest of
/// them in the awaited register and runs on.
pub proof fn lemma_wait_with_key(s: Chip8View, keypad: Seq<bool>, random: u8, k: int)
    requires
        s.key_wait,
        0 <= k < 16,
        keypad[k],
        forall|m: int| 0 <= m < k ==> !#[trigger] keypad[m],
    ensures
        !cycle_result(s, keypad, random).0.key_wait,
        cycle_result(s, keypad, random).0.registers == s.registers.update(s.key_reg, k as u8),
{
    lemma_first_pressed_lowest(keypad, 0, k);
}

/// Whether some keyboard key stands for keypad key `i`.
pub open spec fn has_key(i: int) -> bool {
    exists|k: KeyName| key_slot(k) == Some(i)
}

/// The keyboard layout: no two keys stand for the same keypad key, and every
/// keypad key has a keyboard key.
pub proof fn lemma_keypad_layout()
    ensures
        forall|a: KeyName, b: KeyName|
            #![trigger key_slot(a), key_slot(b)]
            key_slot(a) is Some && key_slot(a) == key_slot(b) ==> a == b,
        forall|i: int| 0 <= i < 16 ==> #[trigger] has_key(i),
{
    assert forall|i: int| 0 <= i < 16 implies #[trigger] has_key(i) by {
        if i == 0 {
            assert(key_slot(KeyName::X) == Some(i));
        } else if i == 1 {
            assert(key_slot(KeyName::U) == Some(i));
        } else if i == 2 {
            assert(key_slot(KeyName::I) == Some(i));
        } else if i == 3 {
            assert(key_slot(KeyName::O) == Some(i));
        } else if i == 4 {
            assert(key_slot(KeyName::Q) == Some(i));
        } else if i == 5 {
            assert(key_slot(KeyName::W) == Some(i));
        } else if i == 6 {
            assert(key_slot(KeyName::E) == Some(i));
        } else if i == 7 {
            assert(key_slot(KeyName::A) == Some(i));
        } else if i == 8 {
            assert(key_slot(KeyName::S) == Some(i));
        } else if i == 9 {
            assert(key_slot(KeyName::D) == Some(i));
        } else if i == 10 {
            assert(key_slot(KeyName::Z) == Some(i));
        } else if i == 11 {
            assert(key_slot(KeyName::C) == Some(i));
        } else if i == 12 {
            assert(key_slot(KeyName::P) == Some(i));
        } else if i == 13 {
            assert(key_slot(KeyName::R) == Some(i));
        } else if i == 14 {
            assert(key_slot(KeyName::F) == Some(i));
        } else {
            assert(key_slot(KeyName::V) == Some(i));
        }
    }
}

} // verus!
