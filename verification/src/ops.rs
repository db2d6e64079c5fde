//! The instructions that act on the program counter, the stack, the
//! registers, the address register, the timers and the keypad.
#![allow(non_snake_case)]

use vstd::prelude::*;
use crate::opcode::{op_x, op_y, op_nn, op_nnn, reg_x, reg_y, byte_nn, addr_nnn};
use crate::memory::MEMORY_SIZE;

verus! {

/// 00EE: return from a subroutine, popping the return address.
pub fn op_00EE(pc: &mut u16, stack: &mut Vec<u16>)
    requires
        old(stack)@.len() > 0,
    ensures
        *final(pc) == old(stack)@.last(),
        final(stack)@ == old(stack)@.drop_last(),
{
    *pc = stack.pop().unwrap();
}

/// 1NNN: jump to address NNN.
pub fn op_1NNN(pc: &mut u16, opcode: u16)
    ensures
        *final(pc) == op_nnn(opcode),
{
    *pc = addr_nnn(opcode);
}

/// 2NNN: call the subroutine at NNN, pushing the current program counter.
pub fn op_2NNN(pc: &mut u16, opcode: u16, stack: &mut Vec<u16>)
    ensures
        final(stack)@ == old(stack)@.push(*old(pc)),
        *final(pc) == op_nnn(opcode),
{
    let c = *pc;
    stack.push(c);
    *pc = addr_nnn(opcode);
}

/// 3XNN: skip the next instruction if VX equals NN.
pub fn op_3XNN(pc: &mut u16, opcode: u16, regs: &[u8; 16])
    requires
        regs@[op_x(opcode)] == op_nn(opcode) ==> *old(pc) + 2 <= u16::MAX,
    ensures
        *final(pc) == if regs@[op_x(opcode)] == op_nn(opcode) {
            *old(pc) + 2
        } else {
            *old(pc) as int
        },
{
    let regx = reg_x(opcode);
    let n = byte_nn(opcode);
    if regs[regx] == n {
        *pc = *pc + 2;
    }
}

/// 4XNN: skip the next instruction if VX differs from NN.
pub fn op_4XNN(pc: &mut u16, opcode: u16, regs: &[u8; 16])
    requires
        regs@[op_x(opcode)] != op_nn(opcode) ==> *old(pc) + 2 <= u16::MAX,
    ensures
        *final(pc) == if regs@[op_x(opcode)] != op_nn(opcode) {
            *old(pc) + 2
        } else {
            *old(pc) as int
        },
{
    let regx = reg_x(opcode);
    let n = byte_nn(opcode);
    if regs[regx] != n {
        *pc = *pc + 2;
    }
}

/// 5XY0: skip the next instruction if VX equals VY.
pub fn op_5XY0(pc: &mut u16, opcode: u16, regs: &[u8; 16])
    requires
        regs@[op_x(opcode)] == regs@[op_y(opcode)] ==> *old(pc) + 2 <= u16::MAX,
    ensures
        *final(pc) == if regs@[op_x(opcode)] == regs@[op_y(opcode)] {
            *old(pc) + 2
        } else {
            *old(pc) as int
        },
{
    let regx = reg_x(opcode);
    let regy = reg_y(opcode);
    if regs[regx] == regs[regy] {
        *pc = *pc + 2;
    }
}

/// 6XNN: VX = NN.
pub fn op_6XNN(opcode: u16, regs: &mut [u8; 16])
    ensures
        final(regs)@ == old(regs)@.update(op_x(opcode), op_nn(opcode) as u8),
{
    let regx = reg_x(opcode);
    let n = byte_nn(opcode);
    regs[regx] = n;
}

/// 7XNN: VX = VX + NN, wrapping, with no carry flag.
pub fn op_7XNN(opcode: u16, regs: &mut [u8; 16])
    ensures
        final(regs)@ == old(regs)@.update(
            op_x(opcode),
            ((old(regs)@[op_x(opcode)] + op_nn(opcode)) % 256) as u8,
        ),
{
    let regx = reg_x(opcode);
    let n = byte_nn(opcode);
    regs[regx] = regs[regx].wrapping_add(n);
}

/// 8XY0: VX = VY.
pub fn op_8XY0(opcode: u16, regs: &mut [u8; 16])
    ensures
        final(regs)@ == old(regs)@.update(op_x(opcode), old(regs)@[op_y(opcode)]),
{
    let regx = reg_x(opcode);
    let regy = reg_y(opcode);
    regs[regx] = regs[regy];
}

/// 8XY1: VX = VX | VY.
pub fn op_8XY1(opcode: u16, regs: &mut [u8; 16])
    ensures
        final(regs)@ == old(regs)@.update(
            op_x(opcode),
            old(regs)@[op_x(opcode)] | old(regs)@[op_y(opcode)],
        ),
{
    let regx = reg_x(opcode);
    let regy = reg_y(opcode);
    regs[regx] = regs[regx] | regs[regy];
}

/// 8XY2: VX = VX & VY.
pub fn op_8XY2(opcode: u16, regs: &mut [u8; 16])
    ensures
        final(regs)@ == old(regs)@.update(
            op_x(opcode),
            old(regs)@[op_x(opcode)] & old(regs)@[op_y(opcode)],
        ),
{
    let regx = reg_x(opcode);
    let regy = reg_y(opcode);
    regs[regx] = regs[regx] & regs[regy];
}

/// 8XY3: VX = VX ^ VY.
pub fn op_8XY3(opcode: u16, regs: &mut [u8; 16])
    ensures
        final(regs)@ == old(regs)@.update(
            op_x(opcode),
            old(regs)@[op_x(opcode)] ^ old(regs)@[op_y(opcode)],
        ),
{
    let regx = reg_x(opcode);
    let regy = reg_y(opcode);
    regs[regx] = regs[regx] ^ regs[regy];
}

/// 8XY4: VX = VX + VY, wrapping; then VF = 1 if the addition carried, else 0.
pub fn op_8XY4(opcode: u16, regs: &mut [u8; 16])
    ensures
        final(regs)@ == old(regs)@.update(
            op_x(opcode),
            ((old(regs)@[op_x(opcode)] + old(regs)@[op_y(opcode)]) % 256) as u8,
        ).update(
            15,
            if old(regs)@[op_x(opcode)] + old(regs)@[op_y(opcode)] > 255 { 1u8 } else { 0u8 },
        ),
{
    let regx = reg_x(opcode);
    let regy = reg_y(opcode);
    let valx = regs[regx];
    let valy = regs[regy];
    let carry = valx as u16 + valy as u16 > 255;
    regs[regx] = valx.wrapping_add(valy);
    regs[15] = if carry { 1 } else { 0 };
}

/// 8XY5: VX = VX - VY, wrapping; then VF = 1 if VX was greater than VY
/// (before the subtraction), else 0.
pub fn op_8XY5(opcode: u16, regs: &mut [u8; 16])
    ensures
        final(regs)@ == old(regs)@.update(
            op_x(opcode),
            ((old(regs)@[op_x(opcode)] - old(regs)@[op_y(opcode)] + 256) % 256) as u8,
        ).update(
            15,
            if old(regs)@[op_x(opcode)] > old(regs)@[op_y(opcode)] { 1u8 } else { 0u8 },
        ),
{
    let regx = reg_x(opcode);
    let regy = reg_y(opcode);
    let valx = regs[regx];
    let valy = regs[regy];
    regs[regx] = regs[regx].wrapping_sub(regs[regy]);
    regs[15] = if valx > valy { 1 } else { 0 };
}

/// 8XY6: VX = VY >> 1; then VF = the bit shifted out of VY.
pub fn op_8XY6(opcode: u16, regs: &mut [u8; 16])
    ensures
        final(regs)@ == old(regs)@.update(
            op_x(opcode),
            (old(regs)@[op_y(opcode)] / 2) as u8,
        ).update(15, (old(regs)@[op_y(opcode)] % 2) as u8),
{
    let regx = reg_x(opcode);
    let regy = reg_y(opcode);
    let val = regs[regy];
    assert(val >> 1u8 == val / 2 && val & 1u8 == val % 2) by (bit_vector);
    regs[regx] = val >> 1u8;
    regs[15] = val & 1u8;
}

/// 8XY7: VX = VY - VX, wrapping; then VF = 0 if the subtraction borrowed,
/// else 1.
pub fn op_8XY7(opcode: u16, regs: &mut [u8; 16])
    ensures
        final(regs)@ == old(regs)@.update(
            op_x(opcode),
            ((old(regs)@[op_y(opcode)] - old(regs)@[op_x(opcode)] + 256) % 256) as u8,
        ).update(
            15,
            if old(regs)@[op_y(opcode)] < old(regs)@[op_x(opcode)] { 0u8 } else { 1u8 },
        ),
{
    let regx = reg_x(opcode);
    let regy = reg_y(opcode);
    let valx = regs[regx];
    let valy = regs[regy];
    let borrow = valy < valx;
    regs[regx] = valy.wrapping_sub(valx);
    regs[15] = if borrow { 0 } else { 1 };
}

/// 8XYE: VX = VY << 1 (the top bit falls off); then VF = the bit shifted out
/// of VY.
pub fn op_8XYE(opcode: u16, regs: &mut [u8; 16])
    ensures
        final(regs)@ == old(regs)@.update(
            op_x(opcode),
            ((old(regs)@[op_y(opcode)] * 2) % 256) as u8,
        ).update(15, (old(regs)@[op_y(opcode)] / 128) as u8),
{
    let regx = reg_x(opcode);
    let regy = reg_y(opcode);
    let val = regs[regy];
    assert(val << 1u8 == (val * 2) % 256 && val >> 7u8 == val / 128) by (bit_vector);
    regs[regx] = val << 1u8;
    regs[15] = val >> 7u8;
}

/// 9XY0: skip the next instruction if VX differs from VY.
pub fn op_9XY0(pc: &mut u16, opcode: u16, regs: &[u8; 16])
    requires
        regs@[op_x(opcode)] != regs@[op_y(opcode)] ==> *old(pc) + 2 <= u16::MAX,
    ensures
        *final(pc) == if regs@[op_x(opcode)] != regs@[op_y(opcode)] {
            *old(pc) + 2
        } else {
            *old(pc) as int
        },
{
    let regx = reg_x(opcode);
    let regy = reg_y(opcode);
    if regs[regx] != regs[regy] {
        *pc = *pc + 2;
    }
}

/// ANNN: I = NNN.
pub fn op_ANNN(adr_i: &mut u16, opcode: u16)
    ensures
        *final(adr_i) == op_nnn(opcode),
{
    *adr_i = addr_nnn(opcode);
}

/// BNNN: jump to address NNN + V0.
pub fn op_BNNN(pc: &mut u16, opcode: u16, regs: &[u8; 16])
    ensures
        *final(pc) == op_nnn(opcode) + regs@[0],
{
    *pc = addr_nnn(opcode) + regs[0] as u16;
}

/// CXNN: VX = `random` & NN, where `random` is a random byte.
pub fn op_CXNN(opcode: u16, regs: &mut [u8; 16], random: u8)
    ensures
        final(regs)@ == old(regs)@.update(op_x(opcode), random & (op_nn(opcode) as u8)),
{
    let regx = reg_x(opcode);
    regs[regx] = random & byte_nn(opcode);
}

/// EX9E: skip the next instruction if the key numbered by the X nibble
/// itself (not by VX) is pressed.
pub fn op_EX9E(pc: &mut u16, opcode: u16, keypad: &[bool; 16])
    requires
        keypad@[op_x(opcode)] ==> *old(pc) + 2 <= u16::MAX,
    ensures
        *final(pc) == if keypad@[op_x(opcode)] { *old(pc) + 2 } else { *old(pc) as int },
{
    if keypad[reg_x(opcode)] {
        *pc = *pc + 2;
    }
}

/// EXA1: skip the next instruction if the key numbered by the X nibble
/// itself (not by VX) is not pressed.
pub fn op_EXA1(pc: &mut u16, opcode: u16, keypad: &[bool; 16])
    requires
        !keypad@[op_x(opcode)] ==> *old(pc) + 2 <= u16::MAX,
    ensures
        *final(pc) == if !keypad@[op_x(opcode)] { *old(pc) + 2 } else { *old(pc) as int },
{
    if !keypad[reg_x(opcode)] {
        *pc = *pc + 2;
    }
}

/// FX07: VX = the delay timer.
pub fn op_FX07(delay: u8, opcode: u16, regs: &mut [u8; 16])
    ensures
        final(regs)@ == old(regs)@.update(op_x(opcode), delay),
{
    regs[reg_x(opcode)] = delay;
}

/// FX0A: wait for a key press, to be stored in VX.
pub fn op_FX0A(key_wait: &mut bool, key_reg: &mut usize, opcode: u16)
    ensures
        *final(key_wait),
        *final(key_reg) == op_x(opcode),
{
    *key_wait = true;
    *key_reg = reg_x(opcode);
}

/// FX15: delay timer = VX.
pub fn op_FX15(delay: &mut u8, opcode: u16, regs: &[u8; 16])
    ensures
        *final(delay) == regs@[op_x(opcode)],
{
    *delay = regs[reg_x(opcode)];
}

/// FX18: sound timer = VX.
pub fn op_FX18(sound: &mut u8, opcode: u16, regs: &[u8; 16])
    ensures
        *final(sound) == regs@[op_x(opcode)],
{
    *sound = regs[reg_x(opcode)];
}

/// FX1E: I = I + VX.
pub fn op_FX1E(adr_i: &mut u16, opcode: u16, regs: &[u8; 16])
    requires
        *old(adr_i) + regs@[op_x(opcode)] <= u16::MAX,
    ensures
        *final(adr_i) == *old(adr_i) + regs@[op_x(opcode)],
{
    let regx = reg_x(opcode);
    *adr_i = *adr_i + regs[regx] as u16;
}

/// FX29: I = the address of the font sprite for the digit in VX (five bytes
/// per sprite, from address 0).
pub fn op_FX29(adr_i: &mut u16, opcode: u16, regs: &[u8; 16])
    ensures
        *final(adr_i) == regs@[op_x(opcode)] * 5,
{
    let regx = reg_x(opcode);
    let char_index = regs[regx] as u16;
    *adr_i = char_index * 5;
}

/// FX33: store the decimal digits of VX at I (hundreds), I + 1 (tens) and
/// I + 2 (ones).
pub fn op_FX33(adr_i: u16, opcode: u16, regs: &[u8; 16], mem: &mut Vec<u8>)
    requires
        old(mem)@.len() == MEMORY_SIZE,
        adr_i + 2 < MEMORY_SIZE,
    ensures
        final(mem)@ == old(mem)@.update(adr_i as int, (regs@[op_x(opcode)] / 100) as u8)
            .update(adr_i + 1, ((regs@[op_x(opcode)] % 100) / 10) as u8)
            .update(adr_i + 2, (regs@[op_x(opcode)] % 10) as u8),
{
    let regx = reg_x(opcode);
    let dec = regs[regx];
    mem[adr_i as usize] = dec / 100;
    mem[adr_i as usize + 1] = (dec % 100) / 10;
    mem[adr_i as usize + 2] = dec % 10;
}

/// FX55: store V0..=VX in memory from I on; then I = I + X + 1.
pub fn op_FX55(adr_i: &mut u16, opcode: u16, regs: &[u8; 16], mem: &mut Vec<u8>)
    requires
        old(mem)@.len() == MEMORY_SIZE,
        *old(adr_i) + op_x(opcode) < MEMORY_SIZE,
    ensures
        final(mem)@.len() == MEMORY_SIZE,
        forall|k: int|
            0 <= k < MEMORY_SIZE ==> #[trigger] final(mem)@[k] == if *old(adr_i) <= k <= *old(adr_i)
                + op_x(opcode) {
                regs@[k - *old(adr_i)]
            } else {
                old(mem)@[k]
            },
        *final(adr_i) == *old(adr_i) + op_x(opcode) + 1,
{
    let regx = reg_x(opcode);
    let ghost start = *adr_i as int;
    let mut reg: usize = 0;
    while reg < regx + 1
        invariant
            reg <= regx + 1,
            regx == op_x(opcode),
            regx < 16,
            *adr_i == start,
            start + regx < MEMORY_SIZE,
            mem@.len() == MEMORY_SIZE,
            forall|k: int|
                0 <= k < MEMORY_SIZE ==> #[trigger] mem@[k] == if start <= k < start + reg {
                    regs@[k - start]
                } else {
                    old(mem)@[k]
                },
        decreases regx + 1 - reg,
    {
        mem[(*adr_i + reg as u16) as usize] = regs[reg];
        reg = reg + 1;
    }
    *adr_i = *adr_i + (regx as u16 + 1);
}

/// FX65: load V0..=VX from memory from I on; then I = I + X + 1.
pub fn op_FX65(adr_i: &mut u16, opcode: u16, regs: &mut [u8; 16], mem: &Vec<u8>)
    requires
        mem@.len() == MEMORY_SIZE,
        *old(adr_i) + op_x(opcode) < MEMORY_SIZE,
    ensures
        forall|r: int|
            0 <= r < 16 ==> #[trigger] final(regs)@[r] == if r <= op_x(opcode) {
                mem@[*old(adr_i) + r]
            } else {
                old(regs)@[r]
            },
        *final(adr_i) == *old(adr_i) + op_x(opcode) + 1,
{
    let regx = reg_x(opcode);
    let ghost start = *adr_i as int;
    let mut reg: usize = 0;
    while reg < regx + 1
        invariant
            reg <= regx + 1,
            regx == op_x(opcode),
            regx < 16,
            *adr_i == start,
            start + regx < MEMORY_SIZE,
            mem@.len() == MEMORY_SIZE,
            forall|r: int|
                0 <= r < 16 ==> #[trigger] regs@[r] == if r < reg {
                    mem@[start + r]
                } else {
                    old(regs)@[r]
                },
        decreases regx + 1 - reg,
    {
        regs[reg] = mem[(*adr_i + reg as u16) as usize];
        reg = reg + 1;
    }
    *adr_i = *adr_i + (regx + 1) as u16;
}

} // verus!
